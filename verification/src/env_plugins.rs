//! Environment providers of services: static values, dotenv files, and the order in which
//! providers are combined.

use vstd::prelude::*;
use crate::defaults::{entries_view, json_get, json_member, json_view, Json, JsonView};
use crate::flags::{join_path, joined};
use crate::settings::{pair_views, string_views};
use crate::text::{chars_of, slice_chars, str_eq, string_of, trim, trim_chars};
use crate::proxy_middleware::{split_once, split_once_char};

verus! {

/// The text members of a JSON object, in order; nothing for another value.
pub open spec fn text_members(v: JsonView) -> Seq<(Seq<char>, Seq<char>)> {
    match v {
        JsonView::Object(es) => text_entries(es),
        _ => Seq::empty(),
    }
}

/// The entries whose values are texts, in order.
pub open spec fn text_entries(es: Seq<(Seq<char>, JsonView)>) -> Seq<(Seq<char>, Seq<char>)>
    decreases es.len(),
{
    if es.len() == 0 {
        Seq::empty()
    } else {
        let rest = text_entries(es.drop_last());
        match es.last().1 {
            JsonView::Str(t) => rest.push((es.last().0, t)),
            _ => rest,
        }
    }
}

/// The texts of a list of JSON values, in order.
pub open spec fn text_items(items: Seq<JsonView>) -> Seq<Seq<char>>
    decreases items.len(),
{
    if items.len() == 0 {
        Seq::empty()
    } else {
        let rest = text_items(items.drop_last());
        match items.last() {
            JsonView::Str(t) => rest.push(t),
            _ => rest,
        }
    }
}

/// The provider of fixed values: the text members of its settings.
#[derive(Clone, Copy, Debug)]
pub struct StaticEnvPlugin;

impl StaticEnvPlugin {
    pub fn new() -> (r: Self) {
        StaticEnvPlugin
    }

    /// The provider's name.
    pub fn name(&self) -> (r: &'static str)
        ensures
            r@ == "static"@,
    {
        "static"
    }

    /// The variables the settings give: each member whose value is a text.
    pub fn load(&self, config: &Json) -> (r: Vec<(String, String)>)
        ensures
            pair_views(r@) == text_members(json_view(*config)),
    {
        let mut r: Vec<(String, String)> = Vec::new();
        match config {
            Json::Object(v) => {
                let mut i: usize = 0;
                while i < v.len()
                    invariant
                        i <= v@.len(),
                        pair_views(r@) == text_entries(entries_view(v@.take(i as int))),
                    decreases v@.len() - i,
                {
                    assert(v@.take(i + 1).drop_last() =~= v@.take(i as int));
                    assert(v@.take(i + 1).last() == v@[i as int]);
                    assert(entries_view(v@.take(i + 1)) == entries_view(v@.take(i as int)).push((v@[i as int].0@, json_view(v@[i as int].1))));
                    let ghost before = r@;
                    match &v[i].1 {
                        Json::Str(t) => {
                            let e = (v[i].0.clone(), t.clone());
                            assert(json_view(v@[i as int].1) == JsonView::Str(t@));
                            r.push(e);
                            assert(r@ == before.push(e));
                            assert(pair_views(r@) == pair_views(before).push((e.0@, e.1@)));
                        },
                        _ => {
                            assert(!(json_view(v@[i as int].1) is Str));
                        },
                    }
                    proof {
                        let ev = entries_view(v@.take(i as int));
                        let y = (v@[i as int].0@, json_view(v@[i as int].1));
                        assert(ev.push(y).drop_last() =~= ev);
                        assert(ev.push(y).last() == y);
                    }
                    assert(pair_views(r@) =~= text_entries(entries_view(v@.take(i + 1))));
                    i = i + 1;
                }
                assert(v@.take(v@.len() as int) =~= v@);
            },
            _ => {},
        }
        r
    }
}

/// The lines of a text: the pieces between line breaks (`\n`), the last one possibly
/// empty.
pub open spec fn text_lines(s: Seq<char>) -> Seq<Seq<char>>
    decreases s.len(),
{
    if s.len() == 0 {
        seq![Seq::empty()]
    } else {
        let prev = text_lines(s.drop_last());
        if s.last() == '\n' {
            prev.push(Seq::empty())
        } else {
            prev.update(prev.len() - 1, prev.last().push(s.last()))
        }
    }
}

proof fn lemma_text_lines_nonempty(s: Seq<char>)
    ensures
        text_lines(s).len() > 0,
    decreases s.len(),
{
    if s.len() > 0 {
        lemma_text_lines_nonempty(s.drop_last());
    }
}

/// Whether a value is wrapped in double or single quotes.
pub open spec fn quoted(v: Seq<char>) -> bool {
    v.len() > 0 && ((v[0] == '"' && v.last() == '"') || (v[0] == '\'' && v.last() == '\''))
}

/// The variable a dotenv line sets: `KEY=value`, with whitespace around the line, the key
/// and the value trimmed and one pair of quotes around the value removed; blank lines,
/// `#` comments and lines without `=` set nothing.
pub open spec fn dotenv_entry(line: Seq<char>) -> Option<(Seq<char>, Seq<char>)> {
    let t = trim(line);
    if t.len() == 0 || t[0] == '#' {
        None
    } else {
        match split_once(t, '=') {
            Some((k, v)) => {
                let value = trim(v);
                Some((trim(k), if quoted(value) { value.subrange(1, value.len() - 1) } else { value }))
            },
            None => None,
        }
    }
}

/// Whether a line's value is a lone quote character, which cannot be unquoted.
pub open spec fn lone_quote(line: Seq<char>) -> bool {
    let t = trim(line);
    t.len() > 0 && t[0] != '#' && (split_once(t, '=') matches Some((_, v)) && trim(v).len() == 1
        && quoted(trim(v)))
}

/// The variables the lines set, in order.
pub open spec fn dotenv_entries(lines: Seq<Seq<char>>) -> Seq<(Seq<char>, Seq<char>)>
    decreases lines.len(),
{
    if lines.len() == 0 {
        Seq::empty()
    } else {
        let rest = dotenv_entries(lines.drop_last());
        match dotenv_entry(lines.last()) {
            Some(e) => rest.push(e),
            None => rest,
        }
    }
}

fn line_entry(line: &Vec<char>) -> (r: Option<(String, String)>)
    requires
        !lone_quote(line@),
    ensures
        match r {
            Some((k, v)) => dotenv_entry(line@) == Some((k@, v@)),
            None => dotenv_entry(line@) is None,
        },
{
    let t = trim_chars(line);
    if t.len() == 0 || t[0] == '#' {
        return None;
    }
    let ts = string_of(&t);
    match split_once_char(ts.as_str(), '=') {
        Some((k, v)) => {
            let key = string_of(&trim_chars(&chars_of(k.as_str())));
            let value = trim_chars(&chars_of(v.as_str()));
            let n = value.len();
            let q = n > 0 && ((value[0] == '"' && value[n - 1] == '"') || (value[0] == '\'' && value[n - 1] == '\''));
            if q {
                let inner = string_of(&slice_chars(&value, 1, n - 1));
                Some((key, inner))
            } else {
                Some((key, string_of(&value)))
            }
        },
        None => None,
    }
}

/// The variables a dotenv file sets, in order (a later one overrides an earlier one of
/// the same name). A line whose value is a lone quote character cannot be read.
pub fn parse_dotenv(content: &str) -> (r: Vec<(String, String)>)
    requires
        forall|i: int| 0 <= i < text_lines(content@).len() ==> !lone_quote(#[trigger] text_lines(content@)[i]),
    ensures
        pair_views(r@) == dotenv_entries(text_lines(content@)),
{
    let c = chars_of(content);
    let mut r: Vec<(String, String)> = Vec::new();
    let mut line: Vec<char> = Vec::new();
    let mut i: usize = 0;
    proof {
        lemma_text_lines_nonempty(c@.take(0));
        assert(c@.take(0) =~= Seq::<char>::empty());
    }
    while i < c.len()
        invariant
            i <= c@.len(),
            c@ == content@,
            forall|j: int| 0 <= j < text_lines(content@).len() ==> !lone_quote(#[trigger] text_lines(content@)[j]),
            text_lines(c@.take(i as int)).len() > 0,
            line@ == text_lines(c@.take(i as int)).last(),
            pair_views(r@) == dotenv_entries(text_lines(c@.take(i as int)).drop_last()),
        decreases c@.len() - i,
    {
        let ghost prev = text_lines(c@.take(i as int));
        let ghost t = c@.take(i + 1);
        assert(t.drop_last() =~= c@.take(i as int));
        assert(t.last() == c@[i as int]);
        if c[i] == '\n' {
            proof {
                lemma_text_lines_prefix(content@, (i + 1) as int);
                let next = text_lines(t);
                assert(next == prev.push(Seq::<char>::empty()));
                assert(next[prev.len() - 1] == prev[prev.len() - 1]);
                assert(next[prev.len() - 1] == text_lines(content@)[prev.len() - 1]);
                assert(!lone_quote(prev[prev.len() - 1]));
            }
            match line_entry(&line) {
                Some(e) => {
                    r.push(e);
                },
                None => {},
            }
            line = Vec::new();
            proof {
                let next = text_lines(t);
                assert(next == prev.push(Seq::<char>::empty()));
                assert(next.drop_last() =~= prev);
                assert(prev.drop_last() =~= prev.drop_last());
                assert(pair_views(r@) =~= dotenv_entries(prev));
                assert(line@ =~= next.last());
            }
        } else {
            line.push(c[i]);
            proof {
                let next = text_lines(t);
                assert(next == prev.update(prev.len() - 1, prev.last().push(c@[i as int])));
                assert(next.drop_last() =~= prev.drop_last());
                assert(line@ =~= next.last());
            }
        }
        i = i + 1;
    }
    assert(c@.take(c@.len() as int) =~= c@);
    let ghost all = text_lines(content@);
    proof {
        assert(!lone_quote(all[all.len() - 1]));
    }
    match line_entry(&line) {
        Some(e) => {
            r.push(e);
        },
        None => {},
    }
    assert(all.drop_last().push(all.last()) =~= all);
    r
}

/// The complete lines of a prefix of a text are lines of the text.
proof fn lemma_text_lines_prefix(s: Seq<char>, k: int)
    requires
        0 <= k <= s.len(),
    ensures
        text_lines(s.take(k)).len() <= text_lines(s).len(),
        forall|j: int| 0 <= j < text_lines(s.take(k)).len() - 1 ==> #[trigger] text_lines(s.take(k))[j] == text_lines(s)[j],
    decreases s.len() - k,
{
    if k < s.len() {
        lemma_text_lines_prefix(s, k + 1);
        let a = s.take(k);
        let b = s.take(k + 1);
        assert(b.drop_last() =~= a);
        assert(b.last() == s[k]);
        lemma_text_lines_nonempty(a);
        let la = text_lines(a);
        let lb = text_lines(b);
        if s[k] == '\n' {
            assert(lb == la.push(Seq::<char>::empty()));
            assert forall|j: int| 0 <= j < la.len() - 1 implies #[trigger] la[j] == text_lines(s)[j] by {
                assert(lb[j] == la[j]);
            }
        } else {
            assert(lb == la.update(la.len() - 1, la.last().push(s[k])));
            assert forall|j: int| 0 <= j < la.len() - 1 implies #[trigger] la[j] == text_lines(s)[j] by {
                assert(lb[j] == la[j]);
            }
        }
    } else {
        assert(s.take(k) =~= s);
    }
}

/// The dotenv files a provider reads: its `files` list (texts only), else its `file`,
/// else `.env`; `files` that is not a list is an error.
pub open spec fn dotenv_files(config: JsonView) -> Result<Seq<Seq<char>>, Seq<char>> {
    match json_member(config, "files"@) {
        Some(JsonView::Array(items)) => Ok(text_items(items)),
        Some(_) => Err("'files' must be an array"@),
        None => match json_member(config, "file"@) {
            Some(JsonView::Str(f)) => Ok(seq![f]),
            _ => Ok(seq![".env"@]),
        },
    }
}

/// The texts among the items of an array, in order (see `text_items`).
pub fn text_values(items: &Vec<Json>) -> (r: Vec<String>)
    ensures
        string_views(r@) == text_items(crate::defaults::items_view(items@)),
{
    let mut r: Vec<String> = Vec::new();
    let mut i: usize = 0;
    while i < items.len()
        invariant
            i <= items@.len(),
            string_views(r@) == text_items(crate::defaults::items_view(items@.take(i as int))),
        decreases items@.len() - i,
    {
        assert(items@.take(i + 1).drop_last() =~= items@.take(i as int));
        assert(items@.take(i + 1).last() == items@[i as int]);
        assert(crate::defaults::items_view(items@.take(i + 1)) == crate::defaults::items_view(items@.take(i as int)).push(json_view(items@[i as int])));
        let ghost before = r@;
        match &items[i] {
            Json::Str(t) => {
                let e = t.clone();
                assert(json_view(items@[i as int]) == JsonView::Str(t@));
                r.push(e);
                assert(r@ == before.push(e));
                assert(string_views(r@) == string_views(before).push(e@));
            },
            _ => {
                assert(!(json_view(items@[i as int]) is Str));
            },
        }
        proof {
            let iv = crate::defaults::items_view(items@.take(i as int));
            let y = json_view(items@[i as int]);
            assert(iv.push(y).drop_last() =~= iv);
            assert(iv.push(y).last() == y);
        }
        assert(string_views(r@) =~= text_items(crate::defaults::items_view(items@.take(i + 1))));
        i = i + 1;
    }
    assert(items@.take(items@.len() as int) =~= items@);
    r
}

/// The dotenv files a configuration names under `environment.dotenv.files`: the texts
/// of that array, in order; none when there is no such array.
pub open spec fn configured_dotenv_files(raw: JsonView) -> Seq<Seq<char>> {
    match json_member(raw, "environment"@) {
        Some(env) => match json_member(env, "dotenv"@) {
            Some(dotenv) => match json_member(dotenv, "files"@) {
                Some(JsonView::Array(items)) => text_items(items),
                _ => Seq::empty(),
            },
            None => Seq::empty(),
        },
        None => Seq::empty(),
    }
}

/// The dotenv files a configuration names (see `configured_dotenv_files`).
pub fn config_dotenv_files(raw: &Json) -> (r: Vec<String>)
    ensures
        string_views(r@) == configured_dotenv_files(json_view(*raw)),
{
    match json_get(raw, "environment") {
        Some(env) => match json_get(env, "dotenv") {
            Some(dotenv) => match json_get(dotenv, "files") {
                Some(Json::Array(items)) => text_values(items),
                _ => {
                    let r: Vec<String> = Vec::new();
                    assert(string_views(r@) =~= Seq::<Seq<char>>::empty());
                    r
                },
            },
            None => {
                let r: Vec<String> = Vec::new();
                assert(string_views(r@) =~= Seq::<Seq<char>>::empty());
                r
            },
        },
        None => {
            let r: Vec<String> = Vec::new();
            assert(string_views(r@) =~= Seq::<Seq<char>>::empty());
            r
        },
    }
}

/// Whether the environment `env` sets the variable `key`.
pub open spec fn env_sets(env: Seq<(Seq<char>, Seq<char>)>, key: Seq<char>) -> bool {
    exists|j: int| 0 <= j < env.len() && #[trigger] env[j].0 == key
}

/// The variables of `vars` that the environment `env` does not set, in order: variables
/// set in the environment take precedence over dotenv files.
pub open spec fn unset_vars(vars: Seq<(Seq<char>, Seq<char>)>, env: Seq<(Seq<char>, Seq<char>)>) -> Seq<(Seq<char>, Seq<char>)>
    decreases vars.len(),
{
    if vars.len() == 0 {
        Seq::empty()
    } else {
        let rest = unset_vars(vars.drop_last(), env);
        if env_sets(env, vars.last().0) {
            rest
        } else {
            rest.push(vars.last())
        }
    }
}

/// The variables of `vars` that `env` does not set (see `unset_vars`).
pub fn without_set_vars(vars: Vec<(String, String)>, env: &Vec<(String, String)>) -> (r: Vec<(String, String)>)
    ensures
        pair_views(r@) == unset_vars(pair_views(vars@), pair_views(env@)),
{
    let ghost vv = pair_views(vars@);
    let ghost ev = pair_views(env@);
    let mut r: Vec<(String, String)> = Vec::new();
    let mut i: usize = 0;
    while i < vars.len()
        invariant
            i <= vars@.len(),
            vv == pair_views(vars@),
            ev == pair_views(env@),
            pair_views(r@) == unset_vars(vv.take(i as int), ev),
        decreases vars@.len() - i,
    {
        assert(vv.take(i + 1).drop_last() =~= vv.take(i as int));
        assert(vv.take(i + 1).last() == vv[i as int]);
        let key = vars[i].0.as_str();
        let mut set = false;
        let mut j: usize = 0;
        while j < env.len()
            invariant
                j <= env@.len(),
                ev == pair_views(env@),
                set == exists|m: int| 0 <= m < j && #[trigger] ev[m].0 == key@,
            decreases env@.len() - j,
        {
            if str_eq(env[j].0.as_str(), key) {
                set = true;
                assert(ev[j as int].0 == key@);
            }
            proof {
                if !set {
                    assert forall|m: int| 0 <= m < j + 1 implies #[trigger] ev[m].0 != key@ by {
                        if m == j {
                        }
                    }
                }
            }
            j = j + 1;
        }
        assert(set == env_sets(ev, vv[i as int].0));
        if !set {
            let ghost before = pair_views(r@);
            r.push((vars[i].0.clone(), vars[i].1.clone()));
            assert(pair_views(r@) =~= before.push(vv[i as int]));
        }
        i = i + 1;
    }
    assert(vv.take(vars@.len() as int) =~= vv);
    r
}

/// Reads dotenv files relative to a base directory.
#[derive(Clone, Debug)]
pub struct DotenvPlugin {
    pub base_dir: String,
}

impl DotenvPlugin {
    /// A provider reading files relative to `base_dir`.
    pub fn new(base_dir: &str) -> (r: Self)
        ensures
            r.base_dir@ == base_dir@,
    {
        DotenvPlugin { base_dir: base_dir.to_owned() }
    }

    /// The provider's name.
    pub fn name(&self) -> (r: &'static str)
        ensures
            r@ == "dotenv"@,
    {
        "dotenv"
    }

    /// The files the settings name (see `dotenv_files`).
    pub fn files(&self, config: &Json) -> (r: Result<Vec<String>, String>)
        ensures
            match r {
                Ok(v) => dotenv_files(json_view(*config)) == Ok::<Seq<Seq<char>>, Seq<char>>(string_views(v@)),
                Err(m) => dotenv_files(json_view(*config)) == Err::<Seq<Seq<char>>, Seq<char>>(m@),
            },
    {
        match json_get(config, "files") {
            Some(Json::Array(items)) => Ok(text_values(items)),
            Some(_) => Err("'files' must be an array".to_owned()),
            None => match json_get(config, "file") {
                Some(Json::Str(f)) => {
                    let mut r: Vec<String> = Vec::new();
                    r.push(f.clone());
                    assert(string_views(r@) =~= seq![f@]);
                    Ok(r)
                },
                _ => {
                    let mut r: Vec<String> = Vec::new();
                    r.push(".env".to_owned());
                    assert(string_views(r@) =~= seq![".env"@]);
                    Ok(r)
                },
            },
        }
    }

    /// Where a named file is: the name itself when absolute, else under the base
    /// directory.
    pub fn path_of(&self, file: &str) -> (r: String)
        ensures
            r@ == if file@.len() > 0 && file@[0] == '/' {
                file@
            } else {
                joined(self.base_dir@, file@)
            },
    {
        let c = chars_of(file);
        if c.len() > 0 && c[0] == '/' {
            file.to_owned()
        } else {
            join_path(self.base_dir.as_str(), file)
        }
    }
}

/// Combines the environment of a service from its providers.
#[derive(Clone, Debug)]
pub struct EnvironmentResolver {
    /// The names of the providers that can be loaded, `static` first.
    pub plugins: Vec<String>,
}

/// Whether a provider is loaded: it is not `static` (whose values come first) and a
/// provider of its name is registered.
pub open spec fn loads_provider(plugins: Seq<String>, name: Seq<char>) -> bool {
    name != "static"@ && exists|i: int| 0 <= i < plugins.len() && plugins[i]@ == name
}

/// The positions of the providers that are loaded, in order.
pub open spec fn loaded_providers(plugins: Seq<String>, providers: Seq<(String, Json)>, n: nat) -> Seq<usize>
    decreases n,
{
    if n == 0 || n > providers.len() {
        Seq::empty()
    } else {
        let rest = loaded_providers(plugins, providers, (n - 1) as nat);
        if loads_provider(plugins, providers[n - 1].0@) {
            rest.push((n - 1) as usize)
        } else {
            rest
        }
    }
}

/// All the variables, in order.
pub open spec fn flattened(groups: Seq<Vec<(String, String)>>) -> Seq<(String, String)>
    decreases groups.len(),
{
    if groups.len() == 0 {
        Seq::empty()
    } else {
        flattened(groups.drop_last()) + groups.last()@
    }
}

impl EnvironmentResolver {
    /// A resolver with the static provider.
    pub fn new() -> (r: Self)
        ensures
            string_views(r.plugins@) == seq!["static"@],
    {
        let mut plugins: Vec<String> = Vec::new();
        plugins.push("static".to_owned());
        assert(string_views(plugins@) =~= seq!["static"@]);
        EnvironmentResolver { plugins }
    }

    /// Registers a provider by name.
    pub fn register(&mut self, name: &str)
        ensures
            final(self).plugins@ == old(self).plugins@.push(final(self).plugins@.last()),
            final(self).plugins@.last()@ == name@,
    {
        self.plugins.push(name.to_owned());
    }

    /// The providers (in the order given) that are loaded: each that is not `static`
    /// and whose provider is registered; others are skipped.
    pub fn providers_to_load(&self, providers: &Vec<(String, Json)>) -> (r: Vec<usize>)
        ensures
            r@ == loaded_providers(self.plugins@, providers@, providers@.len()),
    {
        proof {
            reveal_strlit("static");
        }
        let mut r: Vec<usize> = Vec::new();
        let mut i: usize = 0;
        while i < providers.len()
            invariant
                i <= providers@.len(),
                r@ == loaded_providers(self.plugins@, providers@, i as nat),
            decreases providers@.len() - i,
        {
            let name = providers[i].0.as_str();
            let mut known = false;
            let mut j: usize = 0;
            while j < self.plugins.len()
                invariant
                    j <= self.plugins@.len(),
                    known == exists|p: int| 0 <= p < j && self.plugins@[p]@ == name@,
                decreases self.plugins@.len() - j,
            {
                if str_eq(self.plugins[j].as_str(), name) {
                    known = true;
                }
                proof {
                    if !known {
                        assert forall|p: int| 0 <= p < j + 1 implies self.plugins@[p]@ != name@ by {}
                    }
                }
                j = j + 1;
            }
            if !str_eq(name, "static") && known {
                r.push(i);
            }
            i = i + 1;
        }
        r
    }

    /// The environment: the static values, then the variables of each loaded provider in
    /// order; a later variable overrides an earlier one of the same name.
    pub fn combine(static_env: Option<&Vec<(String, String)>>, loaded: &Vec<Vec<(String, String)>>) -> (r: Vec<(String, String)>)
        ensures
            pair_views(r@) == pair_views(match static_env {
                Some(s) => s@,
                None => Seq::empty(),
            } + flattened(loaded@)),
    {
        let mut r: Vec<(String, String)> = Vec::new();
        let ghost base: Seq<(String, String)> = match static_env {
            Some(s) => s@,
            None => Seq::empty(),
        };
        match static_env {
            Some(s) => {
                let mut i: usize = 0;
                while i < s.len()
                    invariant
                        i <= s@.len(),
                        pair_views(r@) == pair_views(s@.take(i as int)),
                    decreases s@.len() - i,
                {
                    let ghost before = r@;
                    let e = (s[i].0.clone(), s[i].1.clone());
                    assert(e.0@ == s@[i as int].0@ && e.1@ == s@[i as int].1@);
                    r.push(e);
                    assert(s@.take(i + 1) =~= s@.take(i as int).push(s@[i as int]));
                    assert(r@ == before.push(e));
                    assert(pair_views(r@) == pair_views(before).push((e.0@, e.1@)));
                    assert(pair_views(r@) =~= pair_views(s@.take(i + 1)));
                    i = i + 1;
                }
                assert(s@.take(s@.len() as int) =~= s@);
            },
            None => {},
        }
        assert(pair_views(r@) == pair_views(base));
        let mut g: usize = 0;
        while g < loaded.len()
            invariant
                g <= loaded@.len(),
                pair_views(r@) == pair_views(base + flattened(loaded@.take(g as int))),
            decreases loaded@.len() - g,
        {
            let ghost before = r@;
            let group = &loaded[g];
            let mut i: usize = 0;
            while i < group.len()
                invariant
                    i <= group@.len(),
                    pair_views(r@) == pair_views(before) + pair_views(group@.take(i as int)),
                decreases group@.len() - i,
            {
                let ghost prior = r@;
                let e = (group[i].0.clone(), group[i].1.clone());
                assert(e.0@ == group@[i as int].0@ && e.1@ == group@[i as int].1@);
                r.push(e);
                assert(group@.take(i + 1) =~= group@.take(i as int).push(group@[i as int]));
                assert(r@ == prior.push(e));
                assert(pair_views(r@) == pair_views(prior).push((e.0@, e.1@)));
                assert(pair_views(r@) =~= pair_views(before) + pair_views(group@.take(i + 1)));
                i = i + 1;
            }
            assert(group@.take(group@.len() as int) =~= group@);
            assert(loaded@.take(g + 1).drop_last() =~= loaded@.take(g as int));
            assert(loaded@.take(g + 1).last() == loaded@[g as int]);
            assert(pair_views(base + flattened(loaded@.take(g + 1))) =~= pair_views(base + flattened(loaded@.take(g as int))) + pair_views(group@));
            g = g + 1;
        }
        assert(loaded@.take(loaded@.len() as int) =~= loaded@);
        r
    }
}

/// Resolves ports by name through the ports manager, remembering what it resolved.
#[derive(Clone, Debug)]
pub struct PortsParsePlugin {
    pub prefix: String,
    /// Ports already resolved, by full key.
    pub cache: Vec<(String, u16)>,
}

impl PortsParsePlugin {
    /// A plugin without a key prefix.
    pub fn new() -> (r: Self)
        ensures
            r.prefix@.len() == 0,
            r.cache@.len() == 0,
    {
        PortsParsePlugin { prefix: String::new(), cache: Vec::new() }
    }

    /// A plugin that puts `prefix` before every key.
    pub fn with_prefix(prefix: &str) -> (r: Self)
        ensures
            r.prefix@ == prefix@,
            r.cache@.len() == 0,
    {
        PortsParsePlugin { prefix: prefix.to_owned(), cache: Vec::new() }
    }

    /// The plugin's name.
    pub fn name(&self) -> (r: &'static str)
        ensures
            r@ == "ports"@,
    {
        "ports"
    }

    /// The key asked of the ports manager: the prefix, then `key`.
    pub fn full_key(&self, key: &str) -> (r: String)
        ensures
            r@ == self.prefix@ + key@,
    {
        let mut k = self.prefix.clone();
        k.append(key);
        k
    }

    /// The port resolved before for `full_key`, if any.
    pub fn cached(&self, full_key: &str) -> (r: Option<u16>)
        ensures
            r == (if crate::assoc::assoc_view(self.cache@).contains_key(full_key@) {
                Some(crate::assoc::assoc_view(self.cache@)[full_key@])
            } else {
                None::<u16>
            }),
    {
        crate::assoc::assoc_get(&self.cache, &chars_of(full_key))
    }

    /// Remembers the port resolved for `full_key`.
    pub fn remember(&mut self, full_key: &str, port: u16)
        ensures
            crate::assoc::assoc_view(final(self).cache@) == crate::assoc::assoc_view(old(self).cache@).insert(full_key@, port),
            final(self).prefix == old(self).prefix,
    {
        let e = (full_key.to_owned(), port);
        proof {
            crate::assoc::lemma_assoc_push(self.cache@, e);
        }
        self.cache.push(e);
    }

    /// The port the ports manager printed: its output, trimmed, as a port number.
    pub fn port_from_output(stdout: &str) -> (r: Option<u16>)
        ensures
            r == (match crate::text::parse_unsigned(trim(stdout@), 65535) {
                Some(n) => Some(n as u16),
                None => None::<u16>,
            }),
    {
        crate::text::parse_u16(&trim_chars(&chars_of(stdout)))
    }
}

fn line_has_lone_quote(line: &Vec<char>) -> (r: bool)
    ensures
        r == lone_quote(line@),
{
    let t = trim_chars(line);
    if t.len() == 0 || t[0] == '#' {
        return false;
    }
    let ts = string_of(&t);
    match split_once_char(ts.as_str(), '=') {
        Some((_, v)) => {
            let value = trim_chars(&chars_of(v.as_str()));
            value.len() == 1 && (value[0] == '"' || value[0] == '\'')
        },
        None => false,
    }
}

/// Whether some line of a dotenv text has a value that is a lone quote character (which
/// `parse_dotenv` cannot unquote).
pub fn has_lone_quote(content: &str) -> (r: bool)
    ensures
        r == exists|i: int| 0 <= i < text_lines(content@).len() && lone_quote(#[trigger] text_lines(content@)[i]),
{
    let c = chars_of(content);
    let mut line: Vec<char> = Vec::new();
    let mut i: usize = 0;
    proof {
        lemma_text_lines_nonempty(c@.take(0));
        assert(c@.take(0) =~= Seq::<char>::empty());
    }
    while i < c.len()
        invariant
            i <= c@.len(),
            c@ == content@,
            text_lines(c@.take(i as int)).len() > 0,
            line@ == text_lines(c@.take(i as int)).last(),
            forall|j: int| 0 <= j < text_lines(c@.take(i as int)).len() - 1 ==> !lone_quote(#[trigger] text_lines(c@.take(i as int))[j]),
        decreases c@.len() - i,
    {
        let ghost prev = text_lines(c@.take(i as int));
        let ghost t = c@.take(i + 1);
        assert(t.drop_last() =~= c@.take(i as int));
        assert(t.last() == c@[i as int]);
        proof {
            lemma_text_lines_prefix(content@, (i + 1) as int);
        }
        if c[i] == '\n' {
            if line_has_lone_quote(&line) {
                proof {
                    let next = text_lines(t);
                    assert(next == prev.push(Seq::<char>::empty()));
                    assert(next[prev.len() - 1] == text_lines(content@)[prev.len() - 1]);
                }
                return true;
            }
            line = Vec::new();
            proof {
                let next = text_lines(t);
                assert(next == prev.push(Seq::<char>::empty()));
                assert forall|j: int| 0 <= j < next.len() - 1 implies !lone_quote(#[trigger] next[j]) by {
                    if j < prev.len() - 1 {
                        assert(next[j] == prev[j]);
                    }
                }
            }
        } else {
            line.push(c[i]);
            proof {
                let next = text_lines(t);
                assert(next == prev.update(prev.len() - 1, prev.last().push(c@[i as int])));
                assert(line@ =~= next.last());
                assert forall|j: int| 0 <= j < next.len() - 1 implies !lone_quote(#[trigger] next[j]) by {
                    assert(next[j] == prev[j]);
                }
            }
        }
        i = i + 1;
    }
    assert(c@.take(c@.len() as int) =~= c@);
    line_has_lone_quote(&line)
}

} // verus!
