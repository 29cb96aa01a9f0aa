//! Variable interpolation in configuration values.
//!
//! Two kinds of references are expanded:
//! 1. parse-time references `${plugin.key}` and `${plugin.key:-default}`, resolved by the
//!    parse plugins registered in a [`ParseContext`] when the configuration is read;
//! 2. runtime references `{{runtime.port.NAME}}` and `{{uses.ALIAS.port.NAME}}`, resolved by a
//!    [`RuntimeContext`] when a service starts.
//!
//! `$${` stands for a literal `${` and `{{{` for a literal `{{`.

use vstd::prelude::*;
use crate::assoc::{assoc_find, assoc_get, assoc_view, lemma_assoc_push};
use crate::defaults::{entries_view, items_view, json_view, Json, JsonView};
use crate::text::{
    chars_of, chars_occur_at, decimal, is_digit, is_lower, is_upper, occurs_at, push_all,
    slice_chars, string_of, u64_decimal,
};

verus! {

// ---------------------------------------------------------------------------
// Literal replacement (escapes)
// ---------------------------------------------------------------------------

/// Replaces the non-overlapping occurrences of `pat` in `s`, scanning from position `i`
/// to the end, by `rep` (what `str::replace` does on `s[i..]`).
pub open spec fn replace_from(s: Seq<char>, i: int, pat: Seq<char>, rep: Seq<char>) -> Seq<char>
    decreases s.len() - i,
{
    if 0 <= i < s.len() {
        if pat.len() > 0 && occurs_at(s, i, pat) {
            rep + replace_from(s, i + pat.len(), pat, rep)
        } else {
            seq![s[i]] + replace_from(s, i + 1, pat, rep)
        }
    } else {
        Seq::empty()
    }
}

/// `s` with every non-overlapping occurrence of `pat` (leftmost first) replaced by `rep`.
pub open spec fn replace_all(s: Seq<char>, pat: Seq<char>, rep: Seq<char>) -> Seq<char> {
    replace_from(s, 0, pat, rep)
}

/// Replaces every non-overlapping occurrence of `pat` in `s` by `rep`.
pub fn replace_all_chars(s: &[char], pat: &[char], rep: &[char]) -> (r: Vec<char>)
    requires
        pat.len() > 0,
    ensures
        r@ == replace_all(s@, pat@, rep@),
{
    let mut out: Vec<char> = Vec::new();
    let mut i: usize = 0;
    while i < s.len()
        invariant
            i <= s.len(),
            pat@.len() > 0,
            replace_all(s@, pat@, rep@) == out@ + replace_from(s@, i as int, pat@, rep@),
        decreases s.len() - i,
    {
        if chars_occur_at(s, i, pat) {
            let ghost before = out@;
            push_all(&mut out, rep);
            assert(before + (rep@ + replace_from(s@, i + pat@.len(), pat@, rep@)) =~= out@
                + replace_from(s@, i + pat@.len(), pat@, rep@));
            i = i + pat.len();
        } else {
            let ghost before = out@;
            out.push(s[i]);
            assert(before + (seq![s@[i as int]] + replace_from(s@, i + 1, pat@, rep@)) =~= out@
                + replace_from(s@, i + 1, pat@, rep@));
            i = i + 1;
        }
    }
    assert(out@ + Seq::<char>::empty() =~= out@);
    out
}

/// `$${`: the escape for a literal `${`.
pub open spec fn dollar_escape() -> Seq<char> {
    seq!['$', '$', '{']
}

/// `${`.
pub open spec fn dollar_plain() -> Seq<char> {
    seq!['$', '{']
}

/// The marker that stands in for an escaped `${` while references are expanded.
pub open spec fn dollar_mark() -> Seq<char> {
    seq!['\u{0}', 'D', 'O', 'L', 'L', 'A', 'R', '\u{0}']
}

/// `{{{`: the escape for a literal `{{`.
pub open spec fn brace_escape() -> Seq<char> {
    seq!['{', '{', '{']
}

/// `{{`.
pub open spec fn brace_plain() -> Seq<char> {
    seq!['{', '{']
}

/// The marker that stands in for an escaped `{{` while references are expanded.
pub open spec fn brace_mark() -> Seq<char> {
    seq!['\u{0}', 'B', 'R', 'A', 'C', 'E', '\u{0}']
}

fn dollar_escape_chars() -> (v: Vec<char>)
    ensures
        v@ == dollar_escape(),
{
    let v = vec!['$', '$', '{'];
    assert(v@ =~= dollar_escape());
    v
}

fn dollar_plain_chars() -> (v: Vec<char>)
    ensures
        v@ == dollar_plain(),
{
    let v = vec!['$', '{'];
    assert(v@ =~= dollar_plain());
    v
}

fn dollar_mark_chars() -> (v: Vec<char>)
    ensures
        v@ == dollar_mark(),
{
    let v = vec!['\u{0}', 'D', 'O', 'L', 'L', 'A', 'R', '\u{0}'];
    assert(v@ =~= dollar_mark());
    v
}

fn brace_escape_chars() -> (v: Vec<char>)
    ensures
        v@ == brace_escape(),
{
    let v = vec!['{', '{', '{'];
    assert(v@ =~= brace_escape());
    v
}

fn brace_plain_chars() -> (v: Vec<char>)
    ensures
        v@ == brace_plain(),
{
    let v = vec!['{', '{'];
    assert(v@ =~= brace_plain());
    v
}

fn brace_mark_chars() -> (v: Vec<char>)
    ensures
        v@ == brace_mark(),
{
    let v = vec!['\u{0}', 'B', 'R', 'A', 'C', 'E', '\u{0}'];
    assert(v@ =~= brace_mark());
    v
}

// ---------------------------------------------------------------------------
// Character classes and runs
// ---------------------------------------------------------------------------

/// A character that may start an identifier: `[a-zA-Z_]`.
pub open spec fn is_ident_start(c: char) -> bool {
    is_lower(c) || is_upper(c) || c == '_'
}

/// A character that may continue an identifier: `[a-zA-Z0-9_]`.
pub open spec fn is_ident_char(c: char) -> bool {
    is_ident_start(c) || is_digit(c)
}

/// The end of the longest run of identifier characters starting at `i`.
pub open spec fn ident_end(s: Seq<char>, i: int) -> int
    decreases s.len() - i,
{
    if 0 <= i < s.len() && is_ident_char(s[i]) {
        ident_end(s, i + 1)
    } else {
        i
    }
}

/// The end of the longest run starting at `i` of characters other than `}` and `:`.
pub open spec fn key_end(s: Seq<char>, i: int) -> int
    decreases s.len() - i,
{
    if 0 <= i < s.len() && s[i] != '}' && s[i] != ':' {
        key_end(s, i + 1)
    } else {
        i
    }
}

/// The end of the longest run starting at `i` of characters other than `}`.
pub open spec fn default_end(s: Seq<char>, i: int) -> int
    decreases s.len() - i,
{
    if 0 <= i < s.len() && s[i] != '}' {
        default_end(s, i + 1)
    } else {
        i
    }
}

fn is_ident_start_char(c: char) -> (r: bool)
    ensures
        r == is_ident_start(c),
{
    ('a' <= c && c <= 'z') || ('A' <= c && c <= 'Z') || c == '_'
}

fn is_ident_char_char(c: char) -> (r: bool)
    ensures
        r == is_ident_char(c),
{
    is_ident_start_char(c) || ('0' <= c && c <= '9')
}

fn ident_end_exec(s: &[char], i: usize) -> (r: usize)
    requires
        i <= s.len(),
    ensures
        r == ident_end(s@, i as int),
        i <= r <= s.len(),
{
    let mut j = i;
    while j < s.len() && is_ident_char_char(s[j])
        invariant
            i <= j <= s.len(),
            ident_end(s@, i as int) == ident_end(s@, j as int),
        decreases s.len() - j,
    {
        j = j + 1;
    }
    j
}

fn key_end_exec(s: &[char], i: usize) -> (r: usize)
    requires
        i <= s.len(),
    ensures
        r == key_end(s@, i as int),
        i <= r <= s.len(),
{
    let mut j = i;
    while j < s.len() && s[j] != '}' && s[j] != ':'
        invariant
            i <= j <= s.len(),
            key_end(s@, i as int) == key_end(s@, j as int),
        decreases s.len() - j,
    {
        j = j + 1;
    }
    j
}

fn default_end_exec(s: &[char], i: usize) -> (r: usize)
    requires
        i <= s.len(),
    ensures
        r == default_end(s@, i as int),
        i <= r <= s.len(),
{
    let mut j = i;
    while j < s.len() && s[j] != '}'
        invariant
            i <= j <= s.len(),
            default_end(s@, i as int) == default_end(s@, j as int),
        decreases s.len() - j,
    {
        j = j + 1;
    }
    j
}

// ---------------------------------------------------------------------------
// Parse-time references
// ---------------------------------------------------------------------------

/// A parse-time reference found at position `i`: plugin name, key, optional default and the
/// position just after the closing `}`. This is the leftmost-longest match of
/// `\$\{([a-zA-Z_][a-zA-Z0-9_]*)\.([^}:]+)(?::-([^}]*))?\}` starting at `i`.
pub open spec fn parse_ref_at(s: Seq<char>, i: int) -> Option<
    (Seq<char>, Seq<char>, Option<Seq<char>>, int),
> {
    let a = i + 2;
    if !(occurs_at(s, i, dollar_plain()) && a < s.len() && is_ident_start(s[a])) {
        None
    } else {
        let ie = ident_end(s, a);
        if !(ie < s.len() && s[ie] == '.') {
            None
        } else {
            let ks = ie + 1;
            let ke = key_end(s, ks);
            if ke == ks || ke >= s.len() {
                None
            } else if s[ke] == '}' {
                Some((s.subrange(a, ie), s.subrange(ks, ke), None, ke + 1))
            } else if ke + 1 < s.len() && s[ke + 1] == '-' {
                let ds = ke + 2;
                let de = default_end(s, ds);
                if de < s.len() {
                    Some((s.subrange(a, ie), s.subrange(ks, ke), Some(s.subrange(ds, de)), de + 1))
                } else {
                    None
                }
            } else {
                None
            }
        }
    }
}

/// `input` with its escapes turned into markers.
pub open spec fn parse_escaped(input: Seq<char>) -> Seq<char> {
    replace_all(replace_all(input, dollar_escape(), dollar_mark()), brace_escape(), brace_mark())
}

/// `s` with the markers turned back into the literal text they stand for.
pub open spec fn parse_unescaped(s: Seq<char>) -> Seq<char> {
    replace_all(replace_all(s, dollar_mark(), dollar_plain()), brace_mark(), brace_plain())
}

/// The error of an interpolation, in terms of character sequences.
pub enum InterpolationFault {
    Unresolved { plugin: Seq<char>, key: Seq<char> },
    PluginFailed { plugin: Seq<char>, key: Seq<char>, message: Seq<char> },
    UnresolvedRuntimePort { name: Seq<char> },
    UnresolvedUsesPort { alias: Seq<char>, name: Seq<char> },
    UnknownUsesAlias { alias: Seq<char>, name: Seq<char> },
}

/// Why an interpolation failed.
#[derive(Debug)]
pub enum InterpolationError {
    /// `${plugin.key}` had no value and no default.
    Unresolved { plugin: String, key: String },
    /// The plugin answering `${plugin.key}` reported an error.
    PluginFailed { plugin: String, key: String, message: String },
    /// `{{runtime.port.NAME}}` names no known port.
    UnresolvedRuntimePort { name: String },
    /// `{{uses.ALIAS.port.NAME}}` names a port the alias does not have.
    UnresolvedUsesPort { alias: String, name: String },
    /// `{{uses.ALIAS.port.NAME}}` names an unknown alias.
    UnknownUsesAlias { alias: String, name: String },
}

/// The message of an interpolation failure.
pub open spec fn fault_text(f: InterpolationFault) -> Seq<char> {
    match f {
        InterpolationFault::Unresolved { plugin, key } => "Unresolved variable: ${"@ + plugin + "."@ + key
            + "} (no default provided)"@,
        InterpolationFault::PluginFailed { plugin, key, .. } => "Failed to resolve ${"@ + plugin + "."@ + key + "}"@,
        InterpolationFault::UnresolvedRuntimePort { name } => "Unresolved runtime port: {{runtime.port."@ + name + "}}"@,
        InterpolationFault::UnresolvedUsesPort { alias, name } => "Unresolved uses port: {{uses."@ + alias + ".port."@
            + name + "}}"@,
        InterpolationFault::UnknownUsesAlias { alias, name } => "Unknown uses alias: "@ + alias + " in {{uses."@ + alias
            + ".port."@ + name + "}}"@,
    }
}

impl InterpolationError {
    /// The error message.
    pub fn message(&self) -> (r: String)
        ensures
            r@ == fault_text(self@),
    {
        match self {
            InterpolationError::Unresolved { plugin, key } => {
                let mut s = "Unresolved variable: ${".to_owned();
                s.append(plugin.as_str());
                s.append(".");
                s.append(key.as_str());
                s.append("} (no default provided)");
                s
            },
            InterpolationError::PluginFailed { plugin, key, .. } => {
                let mut s = "Failed to resolve ${".to_owned();
                s.append(plugin.as_str());
                s.append(".");
                s.append(key.as_str());
                s.append("}");
                s
            },
            InterpolationError::UnresolvedRuntimePort { name } => {
                let mut s = "Unresolved runtime port: {{runtime.port.".to_owned();
                s.append(name.as_str());
                s.append("}}");
                s
            },
            InterpolationError::UnresolvedUsesPort { alias, name } => {
                let mut s = "Unresolved uses port: {{uses.".to_owned();
                s.append(alias.as_str());
                s.append(".port.");
                s.append(name.as_str());
                s.append("}}");
                s
            },
            InterpolationError::UnknownUsesAlias { alias, name } => {
                let mut s = "Unknown uses alias: ".to_owned();
                s.append(alias.as_str());
                s.append(" in {{uses.");
                s.append(alias.as_str());
                s.append(".port.");
                s.append(name.as_str());
                s.append("}}");
                s
            },
        }
    }
}

impl View for InterpolationError {
    type V = InterpolationFault;

    open spec fn view(&self) -> InterpolationFault {
        match self {
            InterpolationError::Unresolved { plugin, key } => InterpolationFault::Unresolved {
                plugin: plugin@,
                key: key@,
            },
            InterpolationError::PluginFailed { plugin, key, message } =>
                InterpolationFault::PluginFailed { plugin: plugin@, key: key@, message: message@ },
            InterpolationError::UnresolvedRuntimePort { name } =>
                InterpolationFault::UnresolvedRuntimePort { name: name@ },
            InterpolationError::UnresolvedUsesPort { alias, name } =>
                InterpolationFault::UnresolvedUsesPort { alias: alias@, name: name@ },
            InterpolationError::UnknownUsesAlias { alias, name } =>
                InterpolationFault::UnknownUsesAlias { alias: alias@, name: name@ },
        }
    }
}

/// `h` followed by the text of `r`, or the error of `r`.
pub open spec fn prepend(h: Seq<char>, r: Result<Seq<char>, InterpolationFault>) -> Result<
    Seq<char>,
    InterpolationFault,
> {
    match r {
        Ok(t) => Ok(h + t),
        Err(e) => Err(e),
    }
}

proof fn lemma_prepend_prepend(a: Seq<char>, b: Seq<char>, r: Result<Seq<char>, InterpolationFault>)
    ensures
        prepend(a, prepend(b, r)) == prepend(a + b, r),
{
    match r {
        Ok(t) => {
            assert(a + (b + t) =~= (a + b) + t);
        },
        Err(_) => {},
    }
}

/// A resolver of `${NAME.key}` references.
pub trait ParsePlugin {
    /// The `NAME` this plugin answers for.
    spec fn spec_name(&self) -> Seq<char>;

    /// What resolving `key` gives: a value, no value, or an error message.
    spec fn spec_resolve(&self, key: Seq<char>) -> Result<Option<Seq<char>>, Seq<char>>;

    fn name(&self) -> (r: String)
        ensures
            r@ == self.spec_name(),
    ;

    fn resolve(&self, key: &str) -> (r: Result<Option<String>, String>)
        ensures
            resolution_view(r) == self.spec_resolve(key@),
    ;
}

/// The character-sequence view of a plugin answer.
pub open spec fn resolution_view(r: Result<Option<String>, String>) -> Result<
    Option<Seq<char>>,
    Seq<char>,
> {
    match r {
        Ok(Some(v)) => Ok(Some(v@)),
        Ok(None) => Ok(None),
        Err(m) => Err(m@),
    }
}

/// Resolves `env` references: dotenv values first, then the process environment.
///
/// The process environment is a snapshot of its variables, taken by the caller (reading
/// it is I/O) when the plugin is made.
#[derive(Debug)]
pub struct EnvParsePlugin {
    pub dotenv_vars: Vec<(String, String)>,
    pub process_env: Vec<(String, String)>,
}

impl EnvParsePlugin {
    /// A plugin with no dotenv values, answering from the process environment `process_env`.
    pub fn new(process_env: Vec<(String, String)>) -> (p: Self)
        ensures
            p.dotenv_vars@.len() == 0,
            p.process_env@ == process_env@,
            forall|k: Seq<char>| #[trigger] p.lookup(k) == env_lookup(Seq::empty(), process_env@, k),
    {
        EnvParsePlugin { dotenv_vars: Vec::new(), process_env }
    }

    /// A plugin that answers from `dotenv_vars` first, then from the process environment
    /// `process_env`.
    pub fn with_dotenv(dotenv_vars: Vec<(String, String)>, process_env: Vec<(String, String)>) -> (p: Self)
        ensures
            p.dotenv_vars@ == dotenv_vars@,
            p.process_env@ == process_env@,
            forall|k: Seq<char>| #[trigger] p.lookup(k) == env_lookup(dotenv_vars@, process_env@, k),
    {
        EnvParsePlugin { dotenv_vars, process_env }
    }

    /// The value of `key`: dotenv first, then the process environment.
    pub open spec fn lookup(&self, key: Seq<char>) -> Option<Seq<char>> {
        env_lookup(self.dotenv_vars@, self.process_env@, key)
    }
}

/// The value of `key` in `dotenv`, else in `env`.
pub open spec fn env_lookup(dotenv: Seq<(String, String)>, env: Seq<(String, String)>, key: Seq<char>) -> Option<Seq<char>> {
    if assoc_view(dotenv).contains_key(key) {
        Some(assoc_view(dotenv)[key]@)
    } else if assoc_view(env).contains_key(key) {
        Some(assoc_view(env)[key]@)
    } else {
        None
    }
}

fn env_name() -> (s: String)
    ensures
        s@ == seq!['e', 'n', 'v'],
{
    let v = vec!['e', 'n', 'v'];
    string_of(&v)
}

fn service_name_str() -> (s: String)
    ensures
        s@ == seq!['s', 'e', 'r', 'v', 'i', 'c', 'e'],
{
    let v = vec!['s', 'e', 'r', 'v', 'i', 'c', 'e'];
    string_of(&v)
}

impl ParsePlugin for EnvParsePlugin {
    open spec fn spec_name(&self) -> Seq<char> {
        seq!['e', 'n', 'v']
    }

    open spec fn spec_resolve(&self, key: Seq<char>) -> Result<Option<Seq<char>>, Seq<char>> {
        Ok(self.lookup(key))
    }

    fn name(&self) -> (r: String) {
        env_name()
    }

    fn resolve(&self, key: &str) -> (r: Result<Option<String>, String>) {
        let k = chars_of(key);
        match assoc_find(&self.dotenv_vars, &k) {
            Some(j) => Ok(Some(self.dotenv_vars[j].1.clone())),
            None => match assoc_find(&self.process_env, &k) {
                Some(j) => Ok(Some(self.process_env[j].1.clone())),
                None => Ok(None),
            },
        }
    }
}

/// Resolves `service` references: `${service.name}` is the name of the service.
#[derive(Debug)]
pub struct ServiceParsePlugin {
    pub service_name: String,
}

impl ServiceParsePlugin {
    pub fn new(service_name: &str) -> (p: Self)
        ensures
            p.service_name@ == service_name@,
    {
        ServiceParsePlugin { service_name: string_of(&chars_of(service_name)) }
    }
}

impl ParsePlugin for ServiceParsePlugin {
    open spec fn spec_name(&self) -> Seq<char> {
        seq!['s', 'e', 'r', 'v', 'i', 'c', 'e']
    }

    open spec fn spec_resolve(&self, key: Seq<char>) -> Result<Option<Seq<char>>, Seq<char>> {
        if key == seq!['n', 'a', 'm', 'e'] {
            Ok(Some(self.service_name@))
        } else {
            Ok(None)
        }
    }

    fn name(&self) -> (r: String) {
        service_name_str()
    }

    fn resolve(&self, key: &str) -> (r: Result<Option<String>, String>) {
        let k = chars_of(key);
        let n = vec!['n', 'a', 'm', 'e'];
        if crate::text::chars_eq(&k, &n) {
            assert(n@ =~= seq!['n', 'a', 'm', 'e']);
            Ok(Some(self.service_name.clone()))
        } else {
            assert(n@ =~= seq!['n', 'a', 'm', 'e']);
            Ok(None)
        }
    }
}

/// The position of the plugin that answers for `name`: the last one registered under it.
pub open spec fn plugin_index(ps: Seq<RegisteredPlugin>, name: Seq<char>) -> Option<int>
    decreases ps.len(),
{
    if ps.len() == 0 {
        None
    } else if ps.last().spec_name() == name {
        Some(ps.len() - 1)
    } else {
        plugin_index(ps.drop_last(), name)
    }
}

proof fn lemma_plugin_index_in(ps: Seq<RegisteredPlugin>, name: Seq<char>)
    ensures
        plugin_index(ps, name) matches Some(j) ==> 0 <= j < ps.len() && ps[j].spec_name() == name,
    decreases ps.len(),
{
    if ps.len() > 0 && ps.last().spec_name() != name {
        lemma_plugin_index_in(ps.drop_last(), name);
    }
}

/// The plugin registered last under a name answers for it: once `p` is registered after
/// the plugins `ps`, `${<name of p>.key}` resolves as `p` resolves `key`, whatever was
/// registered under that name before; references to other plugins resolve as before.
pub proof fn lemma_latest_plugin_answers(ps: Seq<RegisteredPlugin>, p: RegisteredPlugin, plugin: Seq<char>, key: Seq<char>)
    ensures
        ref_value(ps.push(p), p.spec_name(), key) == p.spec_resolve(key),
        plugin != p.spec_name() ==> ref_value(ps.push(p), plugin, key) == ref_value(ps, plugin, key),
{
    let q = ps.push(p);
    assert(q.drop_last() =~= ps);
    lemma_plugin_index_in(ps, plugin);
    if plugin != p.spec_name() {
        if plugin_index(ps, plugin) is Some {
            let j = plugin_index(ps, plugin).unwrap();
            assert(q[j] == ps[j]);
        }
    }
}

/// What resolving `${plugin.key}` against the plugins `ps` gives (`Ok(None)` for an unknown
/// plugin).
pub open spec fn ref_value(ps: Seq<RegisteredPlugin>, plugin: Seq<char>, key: Seq<char>) -> Result<
    Option<Seq<char>>,
    Seq<char>,
> {
    match plugin_index(ps, plugin) {
        Some(j) => ps[j].spec_resolve(key),
        None => Ok(None),
    }
}

/// The text a reference `${plugin.key:-default}` expands to.
pub open spec fn ref_text(
    ps: Seq<RegisteredPlugin>,
    plugin: Seq<char>,
    key: Seq<char>,
    default: Option<Seq<char>>,
) -> Result<Seq<char>, InterpolationFault> {
    match ref_value(ps, plugin, key) {
        Err(m) => Err(InterpolationFault::PluginFailed { plugin, key, message: m }),
        Ok(Some(v)) => Ok(v),
        Ok(None) => match default {
            Some(d) => Ok(d),
            None => Err(InterpolationFault::Unresolved { plugin, key }),
        },
    }
}

/// The expansion of `s` from position `i` on: references are matched leftmost first and
/// expanded left to right; the first one that fails decides the error.
pub open spec fn expand_from(ps: Seq<RegisteredPlugin>, s: Seq<char>, i: int) -> Result<
    Seq<char>,
    InterpolationFault,
>
    decreases s.len() - i,
{
    if 0 <= i < s.len() {
        let pr = parse_ref_at(s, i);
        if pr is None {
            prepend(seq![s[i]], expand_from(ps, s, i + 1))
        } else {
            let r = pr.unwrap();
            if i < r.3 <= s.len() {
                match ref_text(ps, r.0, r.1, r.2) {
                    Ok(h) => prepend(h, expand_from(ps, s, r.3)),
                    Err(e) => Err(e),
                }
            } else {
                Ok(Seq::empty())
            }
        }
    } else {
        Ok(Seq::empty())
    }
}

/// The result of interpolating parse-time references in `input` with the plugins `ps`.
pub open spec fn parse_interpolation(ps: Seq<RegisteredPlugin>, input: Seq<char>) -> Result<
    Seq<char>,
    InterpolationFault,
> {
    match expand_from(ps, parse_escaped(input), 0) {
        Ok(o) => Ok(parse_unescaped(o)),
        Err(e) => Err(e),
    }
}

/// Two lists of plugins that answer every reference alike expand every text alike.
proof fn lemma_expand_alike(a: Seq<RegisteredPlugin>, b: Seq<RegisteredPlugin>, s: Seq<char>, i: int)
    requires
        forall|n: Seq<char>, k: Seq<char>| #[trigger] ref_value(a, n, k) == ref_value(b, n, k),
    ensures
        expand_from(a, s, i) == expand_from(b, s, i),
    decreases s.len() - i,
{
    if 0 <= i < s.len() {
        let pr = parse_ref_at(s, i);
        if pr is None {
            lemma_expand_alike(a, b, s, i + 1);
        } else {
            let r = pr.unwrap();
            if i < r.3 <= s.len() {
                assert(ref_value(a, r.0, r.1) == ref_value(b, r.0, r.1));
                lemma_expand_alike(a, b, s, r.3);
            }
        }
    }
}

/// Registering a plugin under a name that is already taken replaces the earlier one: once
/// `q` and then `p` of the same name are registered after the plugins `ps`, every input
/// interpolates exactly as with `p` alone registered after `ps`; `q` is never consulted.
pub proof fn lemma_registration_replaces(ps: Seq<RegisteredPlugin>, q: RegisteredPlugin, p: RegisteredPlugin, input: Seq<char>)
    requires
        q.spec_name() == p.spec_name(),
    ensures
        parse_interpolation(ps.push(q).push(p), input) == parse_interpolation(ps.push(p), input),
{
    let a = ps.push(q).push(p);
    let b = ps.push(p);
    assert forall|n: Seq<char>, k: Seq<char>| #[trigger] ref_value(a, n, k) == ref_value(b, n, k) by {
        lemma_latest_plugin_answers(ps.push(q), p, n, k);
        lemma_latest_plugin_answers(ps, p, n, k);
        lemma_latest_plugin_answers(ps, q, n, k);
    }
    lemma_expand_alike(a, b, parse_escaped(input), 0);
}

/// The character-sequence view of an optional character vector.
pub open spec fn opt_vec_view(o: Option<Vec<char>>) -> Option<Seq<char>> {
    match o {
        Some(v) => Some(v@),
        None => None,
    }
}

/// A parse-time reference matched in `s` at `i`.
struct RefMatch {
    plugin: Vec<char>,
    key: Vec<char>,
    default: Option<Vec<char>>,
    end: usize,
}

fn parse_ref_exec(s: &[char], i: usize) -> (r: Option<RefMatch>)
    requires
        i < s.len(),
    ensures
        match r {
            Some(m) => parse_ref_at(s@, i as int) == Some(
                (
                    m.plugin@,
                    m.key@,
                    opt_vec_view(m.default),
                    m.end as int,
                ),
            ) && i < m.end <= s.len(),
            None => parse_ref_at(s@, i as int) is None,
        },
{
    let dp = dollar_plain_chars();
    if !chars_occur_at(s, i, &dp) {
        return None;
    }
    let a = i + 2;
    if !(a < s.len() && is_ident_start_char(s[a])) {
        return None;
    }
    let ie = ident_end_exec(s, a);
    if !(ie < s.len() && s[ie] == '.') {
        return None;
    }
    let ks = ie + 1;
    let ke = key_end_exec(s, ks);
    if ke == ks || ke >= s.len() {
        return None;
    }
    let plugin = slice_chars(s, a, ie);
    let key = slice_chars(s, ks, ke);
    if s[ke] == '}' {
        return Some(RefMatch { plugin, key, default: None, end: ke + 1 });
    }
    if ke + 1 < s.len() && s[ke + 1] == '-' {
        let ds = ke + 2;
        let de = default_end_exec(s, ds);
        if de < s.len() {
            let d = slice_chars(s, ds, de);
            return Some(RefMatch { plugin, key, default: Some(d), end: de + 1 });
        }
    }
    None
}

/// A plugin registered in a [`ParseContext`]: one of the built-in plugins or one supplied
/// by the caller.
pub enum RegisteredPlugin {
    Env(EnvParsePlugin),
    Service(ServiceParsePlugin),
    Custom(Box<dyn ParsePlugin>),
}

impl RegisteredPlugin {
    pub open spec fn spec_name(&self) -> Seq<char> {
        match self {
            RegisteredPlugin::Env(p) => p.spec_name(),
            RegisteredPlugin::Service(p) => p.spec_name(),
            RegisteredPlugin::Custom(p) => p.spec_name(),
        }
    }

    pub open spec fn spec_resolve(&self, key: Seq<char>) -> Result<Option<Seq<char>>, Seq<char>> {
        match self {
            RegisteredPlugin::Env(p) => p.spec_resolve(key),
            RegisteredPlugin::Service(p) => p.spec_resolve(key),
            RegisteredPlugin::Custom(p) => p.spec_resolve(key),
        }
    }

    pub fn name(&self) -> (r: String)
        ensures
            r@ == self.spec_name(),
    {
        match self {
            RegisteredPlugin::Env(p) => p.name(),
            RegisteredPlugin::Service(p) => p.name(),
            RegisteredPlugin::Custom(p) => p.name(),
        }
    }

    pub fn resolve(&self, key: &str) -> (r: Result<Option<String>, String>)
        ensures
            resolution_view(r) == self.spec_resolve(key@),
    {
        match self {
            RegisteredPlugin::Env(p) => p.resolve(key),
            RegisteredPlugin::Service(p) => p.resolve(key),
            RegisteredPlugin::Custom(p) => p.resolve(key),
        }
    }
}

/// Parse-time interpolation: the registered plugins, looked up by name.
pub struct ParseContext {
    pub plugins: Vec<RegisteredPlugin>,
}

impl ParseContext {
    /// A context with the `env` plugin registered, answering from the process
    /// environment `process_env`.
    pub fn new(process_env: Vec<(String, String)>) -> (c: Self)
        ensures
            c.plugins@.len() == 1,
            c.plugins@[0].spec_name() == seq!['e', 'n', 'v'],
            forall|k: Seq<char>| #[trigger] c.plugins@[0].spec_resolve(k) == Ok::<
                Option<Seq<char>>,
                Seq<char>,
            >(env_lookup(Seq::empty(), process_env@, k)),
    {
        let mut c = ParseContext { plugins: Vec::new() };
        let p = EnvParsePlugin::new(process_env);
        c.plugins.push(RegisteredPlugin::Env(p));
        c
    }

    /// A context whose `env` plugin answers from `dotenv_vars` first, then from the
    /// process environment `process_env`.
    pub fn with_dotenv(dotenv_vars: Vec<(String, String)>, process_env: Vec<(String, String)>) -> (c: Self)
        ensures
            c.plugins@.len() == 1,
            c.plugins@[0].spec_name() == seq!['e', 'n', 'v'],
            forall|k: Seq<char>| #[trigger] c.plugins@[0].spec_resolve(k) == Ok::<
                Option<Seq<char>>,
                Seq<char>,
            >(env_lookup(dotenv_vars@, process_env@, k)),
    {
        let mut c = ParseContext { plugins: Vec::new() };
        let p = EnvParsePlugin::with_dotenv(dotenv_vars, process_env);
        c.plugins.push(RegisteredPlugin::Env(p));
        c
    }

    /// Registers a plugin; it replaces any plugin registered under the same name.
    pub fn register_plugin(&mut self, plugin: Box<dyn ParsePlugin>)
        ensures
            final(self).plugins@ == old(self).plugins@.push(RegisteredPlugin::Custom(plugin)),
    {
        self.plugins.push(RegisteredPlugin::Custom(plugin));
    }

    /// Registers the `service` plugin for the service `name`.
    pub fn set_service_name(&mut self, name: &str)
        ensures
            final(self).plugins@.len() == old(self).plugins@.len() + 1,
            final(self).plugins@.drop_last() == old(self).plugins@,
            final(self).plugins@.last().spec_name() == seq!['s', 'e', 'r', 'v', 'i', 'c', 'e'],
            forall|k: Seq<char>| #[trigger] final(self).plugins@.last().spec_resolve(k) == (if k
                == seq!['n', 'a', 'm', 'e'] {
                Ok::<Option<Seq<char>>, Seq<char>>(Some(name@))
            } else {
                Ok::<Option<Seq<char>>, Seq<char>>(None)
            }),
    {
        let p = ServiceParsePlugin::new(name);
        self.plugins.push(RegisteredPlugin::Service(p));
        assert(self.plugins@.drop_last() =~= old(self).plugins@);
    }

    fn find_plugin(&self, name: &[char]) -> (r: Option<usize>)
        ensures
            r matches Some(j) ==> j < self.plugins@.len() && plugin_index(self.plugins@, name@)
                == Some(j as int),
            r is None ==> plugin_index(self.plugins@, name@) is None,
    {
        let mut i = self.plugins.len();
        assert(self.plugins@.take(i as int) =~= self.plugins@);
        while i > 0
            invariant
                i <= self.plugins@.len(),
                plugin_index(self.plugins@, name@) == plugin_index(
                    self.plugins@.take(i as int),
                    name@,
                ),
            decreases i,
        {
            let ghost t = self.plugins@.take(i as int);
            assert(t.drop_last() =~= self.plugins@.take(i - 1));
            assert(t.last() == self.plugins@[i - 1]);
            let n = self.plugins[i - 1].name();
            let nv = chars_of(n.as_str());
            if crate::text::chars_eq(&nv, name) {
                return Some(i - 1);
            }
            i = i - 1;
        }
        None
    }

    /// Expands every `${plugin.key}` and `${plugin.key:-default}` of `input`.
    pub fn interpolate(&self, input: &str) -> (r: Result<String, InterpolationError>)
        ensures
            match r {
                Ok(o) => parse_interpolation(self.plugins@, input@) == Ok::<
                    Seq<char>,
                    InterpolationFault,
                >(o@),
                Err(e) => parse_interpolation(self.plugins@, input@) == Err::<
                    Seq<char>,
                    InterpolationFault,
                >(e@),
            },
    {
        let raw = chars_of(input);
        let e1 = replace_all_chars(&raw, &dollar_escape_chars(), &dollar_mark_chars());
        let s = replace_all_chars(&e1, &brace_escape_chars(), &brace_mark_chars());
        let ghost ps = self.plugins@;
        let mut out: Vec<char> = Vec::new();
        let mut i: usize = 0;
        assert(prepend(Seq::<char>::empty(), expand_from(ps, s@, 0)) == expand_from(ps, s@, 0)) by {
            match expand_from(ps, s@, 0) {
                Ok(t) => { assert(Seq::<char>::empty() + t =~= t); },
                Err(_) => {},
            }
        }
        while i < s.len()
            invariant
                i <= s.len(),
                ps == self.plugins@,
                s@ == parse_escaped(input@),
                expand_from(ps, s@, 0) == prepend(out@, expand_from(ps, s@, i as int)),
            decreases s.len() - i,
        {
            match parse_ref_exec(&s, i) {
                Some(m) => {
                    let ghost dflt = opt_vec_view(m.default);
                    let value: Option<Vec<char>> = match self.find_plugin(&m.plugin) {
                        Some(j) => {
                            let ks = string_of(&m.key);
                            match self.plugins[j].resolve(ks.as_str()) {
                                Ok(Some(v)) => Some(chars_of(v.as_str())),
                                Ok(None) => None,
                                Err(msg) => {
                                    assert(ref_text(ps, m.plugin@, m.key@, dflt) == Err::<Seq<char>, InterpolationFault>(
                                        InterpolationFault::PluginFailed { plugin: m.plugin@, key: m.key@, message: msg@ }));
                                    return Err(
                                        InterpolationError::PluginFailed {
                                            plugin: string_of(&m.plugin),
                                            key: ks,
                                            message: msg,
                                        },
                                    );
                                },
                            }
                        },
                        None => None,
                    };
                    let text: Vec<char> = match value {
                        Some(v) => v,
                        None => match m.default {
                            Some(d) => d,
                            None => {
                                assert(ref_text(ps, m.plugin@, m.key@, dflt) == Err::<Seq<char>, InterpolationFault>(
                                    InterpolationFault::Unresolved { plugin: m.plugin@, key: m.key@ }));
                                return Err(
                                    InterpolationError::Unresolved {
                                        plugin: string_of(&m.plugin),
                                        key: string_of(&m.key),
                                    },
                                );
                            },
                        },
                    };
                    assert(ref_text(ps, m.plugin@, m.key@, dflt) == Ok::<Seq<char>, InterpolationFault>(text@));
                    assert(expand_from(ps, s@, i as int) == prepend(text@, expand_from(ps, s@, m.end as int)));
                    proof {
                        lemma_prepend_prepend(out@, text@, expand_from(ps, s@, m.end as int));
                    }
                    let ghost out0 = out@;
                    push_all(&mut out, &text);
                    assert(out@ == out0 + text@);
                    assert(expand_from(ps, s@, 0) == prepend(out@, expand_from(ps, s@, m.end as int)));
                    i = m.end;
                },
                None => {
                    assert(expand_from(ps, s@, i as int) == prepend(seq![s@[i as int]], expand_from(ps, s@, i + 1)));
                    proof {
                        lemma_prepend_prepend(out@, seq![s@[i as int]], expand_from(ps, s@, i + 1));
                    }
                    let ghost out0 = out@;
                    out.push(s[i]);
                    assert(out@ == out0 + seq![s@[i as int]]);
                    assert(expand_from(ps, s@, 0) == prepend(out@, expand_from(ps, s@, i + 1)));
                    i = i + 1;
                },
            }
        }
        assert(out@ + Seq::<char>::empty() =~= out@);
        let u1 = replace_all_chars(&out, &dollar_mark_chars(), &dollar_plain_chars());
        let u2 = replace_all_chars(&u1, &brace_mark_chars(), &brace_plain_chars());
        Ok(string_of(&u2))
    }
}

// ---------------------------------------------------------------------------
// Interpolation inside JSON values
// ---------------------------------------------------------------------------

/// A JSON value with every string in it interpolated by the plugins `ps`, arrays item by
/// item and objects entry by entry, in order; the first failure, in that order, if any.
pub open spec fn interpolated(ps: Seq<RegisteredPlugin>, j: Json) -> Result<JsonView, InterpolationFault>
    decreases j, 1nat,
{
    match j {
        Json::Str(s) => match parse_interpolation(ps, s@) {
            Ok(t) => Ok(JsonView::Str(t)),
            Err(f) => Err(f),
        },
        Json::Array(v) => match interpolated_items(ps, v@) {
            Ok(items) => Ok(JsonView::Array(items)),
            Err(f) => Err(f),
        },
        Json::Object(v) => match interpolated_entries(ps, v@) {
            Ok(entries) => Ok(JsonView::Object(entries)),
            Err(f) => Err(f),
        },
        _ => Ok(json_view(j)),
    }
}

/// The items of an array, interpolated in order (see `interpolated`).
pub open spec fn interpolated_items(ps: Seq<RegisteredPlugin>, s: Seq<Json>) -> Result<Seq<JsonView>, InterpolationFault>
    decreases s, 0nat,
{
    if s.len() == 0 {
        Ok(Seq::empty())
    } else {
        match interpolated_items(ps, s.drop_last()) {
            Ok(prefix) => match interpolated(ps, s.last()) {
                Ok(v) => Ok(prefix.push(v)),
                Err(f) => Err(f),
            },
            Err(f) => Err(f),
        }
    }
}

/// The entries of an object, their values interpolated in order (see `interpolated`).
pub open spec fn interpolated_entries(ps: Seq<RegisteredPlugin>, s: Seq<(String, Json)>) -> Result<Seq<(Seq<char>, JsonView)>, InterpolationFault>
    decreases s, 0nat,
{
    if s.len() == 0 {
        Ok(Seq::empty())
    } else {
        match interpolated_entries(ps, s.drop_last()) {
            Ok(prefix) => match interpolated(ps, s.last().1) {
                Ok(v) => Ok(prefix.push((s.last().0@, v))),
                Err(f) => Err(f),
            },
            Err(f) => Err(f),
        }
    }
}

/// `j` with every string in it interpolated (see `interpolated`).
pub fn interpolate_json(j: &Json, ctx: &ParseContext) -> (r: Result<Json, InterpolationError>)
    ensures
        match r {
            Ok(o) => interpolated(ctx.plugins@, *j) == Ok::<JsonView, InterpolationFault>(json_view(o)),
            Err(e) => interpolated(ctx.plugins@, *j) == Err::<JsonView, InterpolationFault>(e@),
        },
    decreases j,
{
    let ghost ps = ctx.plugins@;
    match j {
        Json::Str(s) => match ctx.interpolate(s.as_str()) {
            Ok(t) => Ok(Json::Str(t)),
            Err(e) => Err(e),
        },
        Json::Array(v) => {
            let mut out: Vec<Json> = Vec::new();
            let mut i: usize = 0;
            while i < v.len()
                invariant
                    i <= v@.len(),
                    *j == Json::Array(*v),
                    ps == ctx.plugins@,
                    interpolated_items(ps, v@.take(i as int)) == Ok::<Seq<JsonView>, InterpolationFault>(items_view(out@)),
                decreases v@.len() - i,
            {
                assert(v@.take(i + 1).drop_last() =~= v@.take(i as int));
                assert(v@.take(i + 1).last() == v@[i as int]);
                proof {
                    assert(decreases_to!(*j => (*j)->Array_0));
                    assert(decreases_to!(*v => v@));
                    assert(decreases_to!(v@ => v@[i as int]));
                }
                let c = match interpolate_json(&v[i], ctx) {
                    Ok(c) => c,
                    Err(e) => {
                        proof {
                            lemma_items_fail_on(ps, v@, i as int);
                        }
                        return Err(e);
                    },
                };
                let ghost before = out@;
                out.push(c);
                assert(out@.drop_last() =~= before);
                i = i + 1;
            }
            assert(v@.take(v@.len() as int) =~= v@);
            Ok(Json::Array(out))
        },
        Json::Object(v) => {
            let mut out: Vec<(String, Json)> = Vec::new();
            let mut i: usize = 0;
            while i < v.len()
                invariant
                    i <= v@.len(),
                    *j == Json::Object(*v),
                    ps == ctx.plugins@,
                    interpolated_entries(ps, v@.take(i as int)) == Ok::<Seq<(Seq<char>, JsonView)>, InterpolationFault>(entries_view(out@)),
                decreases v@.len() - i,
            {
                assert(v@.take(i + 1).drop_last() =~= v@.take(i as int));
                assert(v@.take(i + 1).last() == v@[i as int]);
                proof {
                    assert(decreases_to!(*j => (*j)->Object_0));
                    assert(decreases_to!(*v => v@));
                    assert(decreases_to!(v@ => v@[i as int]));
                    assert(decreases_to!(v@[i as int] => v@[i as int].1));
                }
                let c = match interpolate_json(&v[i].1, ctx) {
                    Ok(c) => c,
                    Err(e) => {
                        proof {
                            lemma_entries_fail_on(ps, v@, i as int);
                        }
                        return Err(e);
                    },
                };
                let ghost before = out@;
                out.push((v[i].0.clone(), c));
                assert(out@.drop_last() =~= before);
                i = i + 1;
            }
            assert(v@.take(v@.len() as int) =~= v@);
            Ok(Json::Object(out))
        },
        Json::Null => Ok(Json::Null),
        Json::Bool(b) => Ok(Json::Bool(*b)),
        Json::Number(n) => Ok(Json::Number(n.clone())),
    }
}

/// Once an item fails, the whole array fails with its failure (the items before it
/// having gone through).
proof fn lemma_items_fail_on(ps: Seq<RegisteredPlugin>, s: Seq<Json>, i: int)
    requires
        0 <= i < s.len(),
        interpolated_items(ps, s.take(i)) is Ok,
        interpolated(ps, s[i]) is Err,
    ensures
        interpolated_items(ps, s) == Err::<Seq<JsonView>, InterpolationFault>(interpolated(ps, s[i])->Err_0),
    decreases s.len() - i,
{
    if i == s.len() - 1 {
        assert(s.drop_last() =~= s.take(i));
    } else {
        assert(s.drop_last().take(i) =~= s.take(i));
        assert(s.drop_last()[i] == s[i]);
        lemma_items_fail_on(ps, s.drop_last(), i);
    }
}

/// Once an entry fails, the whole object fails with its failure.
proof fn lemma_entries_fail_on(ps: Seq<RegisteredPlugin>, s: Seq<(String, Json)>, i: int)
    requires
        0 <= i < s.len(),
        interpolated_entries(ps, s.take(i)) is Ok,
        interpolated(ps, s[i].1) is Err,
    ensures
        interpolated_entries(ps, s) == Err::<Seq<(Seq<char>, JsonView)>, InterpolationFault>(interpolated(ps, s[i].1)->Err_0),
    decreases s.len() - i,
{
    if i == s.len() - 1 {
        assert(s.drop_last() =~= s.take(i));
    } else {
        assert(s.drop_last().take(i) =~= s.take(i));
        assert(s.drop_last()[i] == s[i]);
        lemma_entries_fail_on(ps, s.drop_last(), i);
    }
}

/// Interpolates every string inside `value` in place (see `interpolated`); on a failure
/// the value is left as it was.
pub fn interpolate_json_value(value: &mut Json, ctx: &ParseContext) -> (r: Result<(), InterpolationError>)
    ensures
        match r {
            Ok(()) => interpolated(ctx.plugins@, *old(value)) == Ok::<JsonView, InterpolationFault>(json_view(*final(value))),
            Err(e) => interpolated(ctx.plugins@, *old(value)) == Err::<JsonView, InterpolationFault>(e@)
                && *final(value) == *old(value),
        },
{
    match interpolate_json(value, ctx) {
        Ok(o) => {
            *value = o;
            Ok(())
        },
        Err(e) => Err(e),
    }
}


// ---------------------------------------------------------------------------
// Runtime references
// ---------------------------------------------------------------------------

/// `{{runtime.port.`
pub open spec fn runtime_prefix() -> Seq<char> {
    seq!['{', '{', 'r', 'u', 'n', 't', 'i', 'm', 'e', '.', 'p', 'o', 'r', 't', '.']
}

/// `{{uses.`
pub open spec fn uses_prefix() -> Seq<char> {
    seq!['{', '{', 'u', 's', 'e', 's', '.']
}

/// `.port.`
pub open spec fn port_infix() -> Seq<char> {
    seq!['.', 'p', 'o', 'r', 't', '.']
}

/// `}}`
pub open spec fn close_braces() -> Seq<char> {
    seq!['}', '}']
}

fn runtime_prefix_chars() -> (v: Vec<char>)
    ensures
        v@ == runtime_prefix(),
{
    let v = vec!['{', '{', 'r', 'u', 'n', 't', 'i', 'm', 'e', '.', 'p', 'o', 'r', 't', '.'];
    assert(v@ =~= runtime_prefix());
    v
}

fn uses_prefix_chars() -> (v: Vec<char>)
    ensures
        v@ == uses_prefix(),
{
    let v = vec!['{', '{', 'u', 's', 'e', 's', '.'];
    assert(v@ =~= uses_prefix());
    v
}

fn port_infix_chars() -> (v: Vec<char>)
    ensures
        v@ == port_infix(),
{
    let v = vec!['.', 'p', 'o', 'r', 't', '.'];
    assert(v@ =~= port_infix());
    v
}

fn close_braces_chars() -> (v: Vec<char>)
    ensures
        v@ == close_braces(),
{
    let v = vec!['}', '}'];
    assert(v@ =~= close_braces());
    v
}

/// A `{{runtime.port.NAME}}` reference at `i`: the name and the position after it
/// (the match of `\{\{runtime\.port\.([a-zA-Z_][a-zA-Z0-9_]*)\}\}` at `i`).
pub open spec fn runtime_ref_at(s: Seq<char>, i: int) -> Option<(Seq<char>, int)> {
    let a = i + 15;
    if occurs_at(s, i, runtime_prefix()) && a < s.len() && is_ident_start(s[a]) {
        let e = ident_end(s, a);
        if occurs_at(s, e, close_braces()) {
            Some((s.subrange(a, e), e + 2))
        } else {
            None
        }
    } else {
        None
    }
}

/// A `{{uses.ALIAS.port.NAME}}` reference at `i`: alias, name and the position after it.
pub open spec fn uses_ref_at(s: Seq<char>, i: int) -> Option<(Seq<char>, Seq<char>, int)> {
    let a = i + 7;
    if occurs_at(s, i, uses_prefix()) && a < s.len() && is_ident_start(s[a]) {
        let e1 = ident_end(s, a);
        let b = e1 + 6;
        if occurs_at(s, e1, port_infix()) && b < s.len() && is_ident_start(s[b]) {
            let e2 = ident_end(s, b);
            if occurs_at(s, e2, close_braces()) {
                Some((s.subrange(a, e1), s.subrange(b, e2), e2 + 2))
            } else {
                None
            }
        } else {
            None
        }
    } else {
        None
    }
}

/// Expansion of the `{{runtime.port.NAME}}` references of `s` from `i` on.
pub open spec fn runtime_pass(ports: Map<Seq<char>, u16>, s: Seq<char>, i: int) -> Result<
    Seq<char>,
    InterpolationFault,
>
    decreases s.len() - i,
{
    if 0 <= i < s.len() {
        let pr = runtime_ref_at(s, i);
        if pr is None {
            prepend(seq![s[i]], runtime_pass(ports, s, i + 1))
        } else {
            let r = pr.unwrap();
            if i < r.1 <= s.len() {
                if ports.contains_key(r.0) {
                    prepend(decimal(ports[r.0] as nat), runtime_pass(ports, s, r.1))
                } else {
                    Err(InterpolationFault::UnresolvedRuntimePort { name: r.0 })
                }
            } else {
                Ok(Seq::empty())
            }
        }
    } else {
        Ok(Seq::empty())
    }
}

/// Expansion of the `{{uses.ALIAS.port.NAME}}` references of `s` from `i` on.
pub open spec fn uses_pass(
    uses: Map<Seq<char>, Map<Seq<char>, u16>>,
    s: Seq<char>,
    i: int,
) -> Result<Seq<char>, InterpolationFault>
    decreases s.len() - i,
{
    if 0 <= i < s.len() {
        let pr = uses_ref_at(s, i);
        if pr is None {
            prepend(seq![s[i]], uses_pass(uses, s, i + 1))
        } else {
            let r = pr.unwrap();
            if i < r.2 <= s.len() {
                if !uses.contains_key(r.0) {
                    Err(InterpolationFault::UnknownUsesAlias { alias: r.0, name: r.1 })
                } else if !uses[r.0].contains_key(r.1) {
                    Err(InterpolationFault::UnresolvedUsesPort { alias: r.0, name: r.1 })
                } else {
                    prepend(decimal(uses[r.0][r.1] as nat), uses_pass(uses, s, r.2))
                }
            } else {
                Ok(Seq::empty())
            }
        }
    } else {
        Ok(Seq::empty())
    }
}

/// The result of interpolating the runtime references of `input`: runtime ports first,
/// then the ports of used services, with `{{{` standing for a literal `{{`.
pub open spec fn runtime_interpolation(
    ports: Map<Seq<char>, u16>,
    uses: Map<Seq<char>, Map<Seq<char>, u16>>,
    input: Seq<char>,
) -> Result<Seq<char>, InterpolationFault> {
    match runtime_pass(ports, replace_all(input, brace_escape(), brace_mark()), 0) {
        Err(e) => Err(e),
        Ok(r1) => match uses_pass(uses, r1, 0) {
            Err(e) => Err(e),
            Ok(r2) => Ok(replace_all(r2, brace_mark(), brace_plain())),
        },
    }
}

/// The map view of a table of port tables.
pub open spec fn uses_view(u: Seq<(String, Vec<(String, u16)>)>) -> Map<Seq<char>, Map<Seq<char>, u16>> {
    Map::new(
        |k: Seq<char>| assoc_view(u).contains_key(k),
        |k: Seq<char>| assoc_view(assoc_view(u)[k]@),
    )
}

fn runtime_ref_exec(s: &[char], i: usize) -> (r: Option<(Vec<char>, usize)>)
    requires
        i < s.len(),
    ensures
        match r {
            Some((n, e)) => runtime_ref_at(s@, i as int) == Some((n@, e as int)) && i < e <= s.len(),
            None => runtime_ref_at(s@, i as int) is None,
        },
{
    if !chars_occur_at(s, i, &runtime_prefix_chars()) {
        return None;
    }
    let a = i + 15;
    if !(a < s.len() && is_ident_start_char(s[a])) {
        return None;
    }
    let e = ident_end_exec(s, a);
    if !chars_occur_at(s, e, &close_braces_chars()) {
        return None;
    }
    Some((slice_chars(s, a, e), e + 2))
}

fn uses_ref_exec(s: &[char], i: usize) -> (r: Option<(Vec<char>, Vec<char>, usize)>)
    requires
        i < s.len(),
    ensures
        match r {
            Some((a, n, e)) => uses_ref_at(s@, i as int) == Some((a@, n@, e as int)) && i < e
                <= s.len(),
            None => uses_ref_at(s@, i as int) is None,
        },
{
    if !chars_occur_at(s, i, &uses_prefix_chars()) {
        return None;
    }
    let a = i + 7;
    if !(a < s.len() && is_ident_start_char(s[a])) {
        return None;
    }
    let e1 = ident_end_exec(s, a);
    if !chars_occur_at(s, e1, &port_infix_chars()) {
        return None;
    }
    let b = e1 + 6;
    if !(b < s.len() && is_ident_start_char(s[b])) {
        return None;
    }
    let e2 = ident_end_exec(s, b);
    if !chars_occur_at(s, e2, &close_braces_chars()) {
        return None;
    }
    Some((slice_chars(s, a, e1), slice_chars(s, b, e2), e2 + 2))
}

/// Runtime interpolation: port assignments of the service and of the services it uses.
#[derive(Debug)]
pub struct RuntimeContext {
    pub ports: Vec<(String, u16)>,
    pub uses_ports: Vec<(String, Vec<(String, u16)>)>,
}

impl RuntimeContext {
    /// The port table by name.
    pub open spec fn port_map(&self) -> Map<Seq<char>, u16> {
        assoc_view(self.ports@)
    }

    /// The port tables of used services by alias.
    pub open spec fn uses_map(&self) -> Map<Seq<char>, Map<Seq<char>, u16>> {
        uses_view(self.uses_ports@)
    }

    /// An empty context.
    pub fn new() -> (c: Self)
        ensures
            c.port_map() == Map::<Seq<char>, u16>::empty(),
            c.uses_map() == Map::<Seq<char>, Map<Seq<char>, u16>>::empty(),
    {
        let c = RuntimeContext { ports: Vec::new(), uses_ports: Vec::new() };
        assert(c.uses_map() =~= Map::<Seq<char>, Map<Seq<char>, u16>>::empty());
        c
    }

    /// Assigns `port` to the port named `name`.
    pub fn set_port(&mut self, name: &str, port: u16)
        ensures
            final(self).port_map() == old(self).port_map().insert(name@, port),
            final(self).uses_map() == old(self).uses_map(),
    {
        let n = string_of(&chars_of(name));
        proof {
            lemma_assoc_push(self.ports@, (n, port));
        }
        self.ports.push((n, port));
    }

    /// Replaces the port table.
    pub fn set_ports(&mut self, ports: Vec<(String, u16)>)
        ensures
            final(self).port_map() == assoc_view(ports@),
            final(self).uses_map() == old(self).uses_map(),
    {
        self.ports = ports;
    }

    /// Records the port table of the used service known as `alias`.
    pub fn add_uses_ports(&mut self, alias: &str, ports: Vec<(String, u16)>)
        ensures
            final(self).port_map() == old(self).port_map(),
            final(self).uses_map() == old(self).uses_map().insert(alias@, assoc_view(ports@)),
    {
        let a = string_of(&chars_of(alias));
        let ghost old_u = self.uses_ports@;
        proof {
            lemma_assoc_push(old_u, (a, ports));
        }
        self.uses_ports.push((a, ports));
        assert(self.uses_map() =~= uses_view(old_u).insert(alias@, assoc_view(ports@)));
    }

    /// The port named `name`, if assigned.
    pub fn get_port(&self, name: &str) -> (r: Option<u16>)
        ensures
            r == (if self.port_map().contains_key(name@) {
                Some(self.port_map()[name@])
            } else {
                None::<u16>
            }),
    {
        assoc_get(&self.ports, &chars_of(name))
    }

    fn runtime_pass_exec(&self, s: &[char]) -> (r: Result<Vec<char>, InterpolationError>)
        ensures
            match r {
                Ok(o) => runtime_pass(self.port_map(), s@, 0) == Ok::<Seq<char>, InterpolationFault>(o@),
                Err(e) => runtime_pass(self.port_map(), s@, 0) == Err::<Seq<char>, InterpolationFault>(e@),
            },
    {
        let ghost pm = self.port_map();
        let mut out: Vec<char> = Vec::new();
        let mut i: usize = 0;
        assert(prepend(Seq::<char>::empty(), runtime_pass(pm, s@, 0)) == runtime_pass(pm, s@, 0)) by {
            match runtime_pass(pm, s@, 0) {
                Ok(t) => { assert(Seq::<char>::empty() + t =~= t); },
                Err(_) => {},
            }
        }
        while i < s.len()
            invariant
                i <= s.len(),
                pm == self.port_map(),
                runtime_pass(pm, s@, 0) == prepend(out@, runtime_pass(pm, s@, i as int)),
            decreases s.len() - i,
        {
            match runtime_ref_exec(s, i) {
                Some((n, e)) => {
                    match assoc_get(&self.ports, &n) {
                        Some(p) => {
                            let d = u64_decimal(p as u64);
                            assert(runtime_pass(pm, s@, i as int) == prepend(d@, runtime_pass(pm, s@, e as int)));
                            proof {
                                lemma_prepend_prepend(out@, d@, runtime_pass(pm, s@, e as int));
                            }
                            let ghost out0 = out@;
                            push_all(&mut out, &d);
                            assert(runtime_pass(pm, s@, 0) == prepend(out@, runtime_pass(pm, s@, e as int)));
                            i = e;
                        },
                        None => {
                            assert(runtime_pass(pm, s@, i as int) == Err::<Seq<char>, InterpolationFault>(
                                InterpolationFault::UnresolvedRuntimePort { name: n@ }));
                            return Err(InterpolationError::UnresolvedRuntimePort { name: string_of(&n) });
                        },
                    }
                },
                None => {
                    assert(runtime_pass(pm, s@, i as int) == prepend(seq![s@[i as int]], runtime_pass(pm, s@, i + 1)));
                    proof {
                        lemma_prepend_prepend(out@, seq![s@[i as int]], runtime_pass(pm, s@, i + 1));
                    }
                    let ghost out0 = out@;
                    out.push(s[i]);
                    assert(out@ == out0 + seq![s@[i as int]]);
                    assert(runtime_pass(pm, s@, 0) == prepend(out@, runtime_pass(pm, s@, i + 1)));
                    i = i + 1;
                },
            }
        }
        assert(out@ + Seq::<char>::empty() =~= out@);
        Ok(out)
    }

    fn uses_pass_exec(&self, s: &[char]) -> (r: Result<Vec<char>, InterpolationError>)
        ensures
            match r {
                Ok(o) => uses_pass(self.uses_map(), s@, 0) == Ok::<Seq<char>, InterpolationFault>(o@),
                Err(e) => uses_pass(self.uses_map(), s@, 0) == Err::<Seq<char>, InterpolationFault>(e@),
            },
    {
        let ghost um = self.uses_map();
        let mut out: Vec<char> = Vec::new();
        let mut i: usize = 0;
        assert(prepend(Seq::<char>::empty(), uses_pass(um, s@, 0)) == uses_pass(um, s@, 0)) by {
            match uses_pass(um, s@, 0) {
                Ok(t) => { assert(Seq::<char>::empty() + t =~= t); },
                Err(_) => {},
            }
        }
        while i < s.len()
            invariant
                i <= s.len(),
                um == self.uses_map(),
                uses_pass(um, s@, 0) == prepend(out@, uses_pass(um, s@, i as int)),
            decreases s.len() - i,
        {
            match uses_ref_exec(s, i) {
                Some((a, n, e)) => {
                    match assoc_find(&self.uses_ports, &a) {
                        Some(j) => {
                            assert(um.contains_key(a@));
                            assert(um[a@] == assoc_view(self.uses_ports@[j as int].1@));
                            match assoc_get(&self.uses_ports[j].1, &n) {
                                Some(p) => {
                                    let d = u64_decimal(p as u64);
                                    assert(uses_pass(um, s@, i as int) == prepend(d@, uses_pass(um, s@, e as int)));
                                    proof {
                                        lemma_prepend_prepend(out@, d@, uses_pass(um, s@, e as int));
                                    }
                                    push_all(&mut out, &d);
                                    assert(uses_pass(um, s@, 0) == prepend(out@, uses_pass(um, s@, e as int)));
                                    i = e;
                                },
                                None => {
                                    assert(uses_pass(um, s@, i as int) == Err::<Seq<char>, InterpolationFault>(
                                        InterpolationFault::UnresolvedUsesPort { alias: a@, name: n@ }));
                                    return Err(InterpolationError::UnresolvedUsesPort {
                                        alias: string_of(&a),
                                        name: string_of(&n),
                                    });
                                },
                            }
                        },
                        None => {
                            assert(!um.contains_key(a@));
                            assert(uses_pass(um, s@, i as int) == Err::<Seq<char>, InterpolationFault>(
                                InterpolationFault::UnknownUsesAlias { alias: a@, name: n@ }));
                            return Err(InterpolationError::UnknownUsesAlias {
                                alias: string_of(&a),
                                name: string_of(&n),
                            });
                        },
                    }
                },
                None => {
                    assert(uses_pass(um, s@, i as int) == prepend(seq![s@[i as int]], uses_pass(um, s@, i + 1)));
                    proof {
                        lemma_prepend_prepend(out@, seq![s@[i as int]], uses_pass(um, s@, i + 1));
                    }
                    let ghost out0 = out@;
                    out.push(s[i]);
                    assert(out@ == out0 + seq![s@[i as int]]);
                    assert(uses_pass(um, s@, 0) == prepend(out@, uses_pass(um, s@, i + 1)));
                    i = i + 1;
                },
            }
        }
        assert(out@ + Seq::<char>::empty() =~= out@);
        Ok(out)
    }

    /// Expands every `{{runtime.port.NAME}}` and `{{uses.ALIAS.port.NAME}}` of `input`.
    pub fn interpolate(&self, input: &str) -> (r: Result<String, InterpolationError>)
        ensures
            match r {
                Ok(o) => runtime_interpolation(self.port_map(), self.uses_map(), input@) == Ok::<
                    Seq<char>,
                    InterpolationFault,
                >(o@),
                Err(e) => runtime_interpolation(self.port_map(), self.uses_map(), input@) == Err::<
                    Seq<char>,
                    InterpolationFault,
                >(e@),
            },
    {
        let raw = chars_of(input);
        let escaped = replace_all_chars(&raw, &brace_escape_chars(), &brace_mark_chars());
        let r1 = match self.runtime_pass_exec(&escaped) {
            Ok(v) => v,
            Err(e) => {
                return Err(e);
            },
        };
        let r2 = match self.uses_pass_exec(&r1) {
            Ok(v) => v,
            Err(e) => {
                return Err(e);
            },
        };
        let out = replace_all_chars(&r2, &brace_mark_chars(), &brace_plain_chars());
        Ok(string_of(&out))
    }
}

} // verus!
