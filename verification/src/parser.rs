//! The reader of a project's hive configuration: where it lives, and the interpolation
//! context it is read with.

use vstd::prelude::*;
use crate::flags::{join_path, joined};
use crate::interpolation::{env_lookup, ParseContext, ParsePlugin, RegisteredPlugin};
use crate::text::{chars_of, has_prefix};

verus! {

/// Where the configuration lives, relative to the project root.
pub const HIVE_YAML_PATH: &'static str = ".adi/hive.yaml";

/// Reads the configuration of the project at `project_root`.
pub struct HiveConfigParser {
    pub project_root: String,
    pub parse_context: ParseContext,
}

impl HiveConfigParser {
    /// A reader for the project at `project_root`, interpolating with the `env` plugin
    /// over the process environment `process_env`.
    pub fn new(project_root: &str, process_env: Vec<(String, String)>) -> (r: Self)
        ensures
            r.project_root@ == project_root@,
            r.parse_context.plugins@.len() == 1,
            r.parse_context.plugins@[0].spec_name() == seq!['e', 'n', 'v'],
            forall|k: Seq<char>| #[trigger] r.parse_context.plugins@[0].spec_resolve(k) == Ok::<
                Option<Seq<char>>,
                Seq<char>,
            >(env_lookup(Seq::empty(), process_env@, k)),
    {
        let parse_context = ParseContext::new(process_env);
        HiveConfigParser { project_root: project_root.to_owned(), parse_context }
    }

    /// Adds an interpolation plugin.
    pub fn register_plugin(&mut self, plugin: Box<dyn ParsePlugin>)
        ensures
            final(self).project_root == old(self).project_root,
    {
        self.parse_context.register_plugin(plugin);
    }

    /// Where the configuration lives.
    pub fn config_path(&self) -> (r: String)
        ensures
            r@ == joined(self.project_root@, HIVE_YAML_PATH@),
    {
        join_path(self.project_root.as_str(), HIVE_YAML_PATH)
    }

    /// The project root.
    pub fn project_root(&self) -> (r: &str)
        ensures
            r@ == self.project_root@,
    {
        self.project_root.as_str()
    }

    /// A path of the configuration: absolute paths as they are, others under the project
    /// root.
    pub fn resolve_path(&self, relative: &str) -> (r: String)
        ensures
            r@ == if has_prefix(relative@, seq!['/']) { relative@ } else { joined(self.project_root@, relative@) },
    {
        let c = chars_of(relative);
        if c.len() > 0 && c[0] == '/' {
            assert(has_prefix(relative@, seq!['/'])) by {
                assert(relative@.take(1) =~= seq!['/']);
            }
            relative.to_owned()
        } else {
            assert(!has_prefix(relative@, seq!['/'])) by {
                if relative@.len() > 0 {
                    assert(relative@.take(1)[0] == relative@[0]);
                }
            }
            join_path(self.project_root.as_str(), relative)
        }
    }
}

/// The directory holding `p` (`p` without its last component), as `std` reads paths; the
/// text itself is only named here.
pub uninterp spec fn path_parent(p: Seq<char>) -> Option<Seq<char>>;

/// `std::path::Path::parent`: the path without its final component, or `None` for a path
/// that ends in a root or prefix, and for the empty path. What it returns is only named
/// (`path_parent`); the documented fact used here is that a parent, being the path without
/// a component, is shorter than the path.
#[verifier::external_body]
fn parent_of(p: &str) -> (r: Option<String>)
    ensures
        match r {
            Some(q) => path_parent(p@) == Some(q@) && q@.len() < p@.len(),
            None => path_parent(p@) is None,
        },
{
    std::path::Path::new(p).parent().map(|q| q.to_string_lossy().into_owned())
}

/// `dirs` are `start` and its ancestors, from `start` up: each the parent of the one
/// before, the last without one.
pub open spec fn ancestors(start: Seq<char>, dirs: Seq<Seq<char>>) -> bool {
    &&& dirs.len() > 0
    &&& dirs[0] == start
    &&& forall|i: int| 0 <= i < dirs.len() - 1 ==> path_parent(#[trigger] dirs[i]) == Some(dirs[i + 1])
    &&& path_parent(dirs.last()) is None
}

/// The directories in which the project root is looked for, in order: `start_dir`, then
/// each parent up to the top (the root is the nearest of them that holds
/// `.adi/hive.yaml`).
pub fn project_root_candidates(start_dir: &str) -> (r: Vec<String>)
    ensures
        ancestors(start_dir@, crate::settings::string_views(r@)),
{
    let mut r: Vec<String> = Vec::new();
    let mut current = start_dir.to_owned();
    r.push(current.clone());
    loop
        invariant
            r@.len() > 0,
            crate::settings::string_views(r@)[0] == start_dir@,
            crate::settings::string_views(r@).last() == current@,
            forall|i: int| 0 <= i < r@.len() - 1 ==> path_parent(#[trigger] crate::settings::string_views(r@)[i])
                == Some(crate::settings::string_views(r@)[i + 1]),
        decreases current@.len(),
    {
        match parent_of(current.as_str()) {
            Some(p) => {
                let ghost before = crate::settings::string_views(r@);
                r.push(p.clone());
                assert(crate::settings::string_views(r@) =~= before.push(p@));
                current = p;
            },
            None => {
                return r;
            },
        }
    }
}

} // verus!
