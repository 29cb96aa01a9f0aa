//! Routing of the service proxy: routes by host and path prefix, the longest prefix first,
//! and the path a request is forwarded to.

use vstd::prelude::*;
use crate::assoc::assoc_get;
use crate::duration::Duration;
use crate::text::{chars_of, has_prefix, has_suffix, parse_u16, parse_unsigned, slice_chars, str_eq, str_starts_with, string_of};

verus! {

/// A route from the proxy to a service.
#[derive(Debug)]
pub struct Route {
    pub service_name: String,
    /// The configuration source the route came from.
    pub source: String,
    /// The host it serves (none: any host without its own routes).
    pub host: Option<String>,
    /// The path prefix it serves.
    pub path: String,
    pub port: u16,
    /// Whether the prefix is removed before forwarding.
    pub strip_prefix: bool,
    pub timeout_ms: u64,
}

fn copy_route(r: &Route) -> (c: Route)
    ensures
        c == *r,
{
    Route {
        service_name: r.service_name.clone(),
        source: r.source.clone(),
        host: match &r.host {
            Some(h) => Some(h.clone()),
            None => None,
        },
        path: r.path.clone(),
        port: r.port,
        strip_prefix: r.strip_prefix,
        timeout_ms: r.timeout_ms,
    }
}

/// A host key as plain text.
pub open spec fn host_view(h: Option<String>) -> Option<Seq<char>> {
    match h {
        Some(s) => Some(s@),
        None => None,
    }
}

/// Routes sorted by path length, longest first.
pub open spec fn longest_first(rs: Seq<Route>) -> bool {
    forall|i: int, j: int| 0 <= i <= j < rs.len() ==> (#[trigger] rs[i]).path@.len() >= (#[trigger] rs[j]).path@.len()
}

/// The first route of `rs` whose path is a prefix of `path`.
pub open spec fn first_match(rs: Seq<Route>, path: Seq<char>) -> Option<Route>
    decreases rs.len(),
{
    if rs.len() == 0 {
        None
    } else if has_prefix(path, rs[0].path@) {
        Some(rs[0])
    } else {
        first_match(rs.drop_first(), path)
    }
}

proof fn lemma_match_skip(rs: Seq<Route>, path: Seq<char>, i: int)
    requires
        0 <= i <= rs.len(),
        forall|j: int| 0 <= j < i ==> !has_prefix(path, (#[trigger] rs[j]).path@),
    ensures
        first_match(rs, path) == first_match(rs.skip(i), path),
    decreases i,
{
    if i > 0 {
        assert(rs.drop_first().skip(i - 1) =~= rs.skip(i));
        assert forall|j: int| 0 <= j < i - 1 implies !has_prefix(path, (#[trigger] rs.drop_first()[j]).path@) by {
            assert(rs.drop_first()[j] == rs[j + 1]);
        }
        assert(!has_prefix(path, rs[0].path@));
        lemma_match_skip(rs.drop_first(), path, i - 1);
    } else {
        assert(rs.skip(0) =~= rs);
    }
}

/// The first route of `rs` whose path is a prefix of `path`.
fn first_match_of(rs: &Vec<Route>, path: &str) -> (r: Option<Route>)
    ensures
        r == first_match(rs@, path@),
{
    let mut i: usize = 0;
    while i < rs.len()
        invariant
            i <= rs@.len(),
            forall|j: int| 0 <= j < i ==> !has_prefix(path@, (#[trigger] rs@[j]).path@),
        decreases rs.len() - i,
    {
        if str_starts_with(path, rs[i].path.as_str()) {
            proof {
                lemma_match_skip(rs@, path@, i as int);
                assert(rs@.skip(i as int)[0] == rs@[i as int]);
            }
            return Some(copy_route(&rs[i]));
        }
        i = i + 1;
    }
    proof {
        lemma_match_skip(rs@, path@, i as int);
    }
    None
}

/// Routes ordered for a group: longest path first, and routes of the same length in the
/// order they were added.
proof fn lemma_insert_keeps_order(rs: Seq<Route>, p: int, x: Route)
    requires
        longest_first(rs),
        0 <= p <= rs.len(),
        forall|q: int| 0 <= q < p ==> (#[trigger] rs[q]).path@.len() >= x.path@.len(),
        p < rs.len() ==> rs[p].path@.len() < x.path@.len(),
    ensures
        longest_first(rs.insert(p, x)),
{
    let u = rs.insert(p, x);
    assert forall|a: int, b: int| 0 <= a <= b < u.len() implies (#[trigger] u[a]).path@.len() >= (#[trigger] u[b]).path@.len() by {
        let ia = if a < p { a } else if a == p { -1 } else { a - 1 };
        let ib = if b < p { b } else if b == p { -1 } else { b - 1 };
        if ia >= 0 && ib >= 0 {
            assert(u[a] == rs[ia] && u[b] == rs[ib]);
        } else if ia < 0 && ib >= 0 {
            assert(u[b] == rs[ib]);
            assert(rs[p].path@.len() >= rs[ib].path@.len());
        } else if ia >= 0 && ib < 0 {
            assert(u[a] == rs[ia]);
        }
    }
}

/// The routes of `rs` not of the service `name`, in order.
pub open spec fn without_service(rs: Seq<Route>, name: Seq<char>) -> Seq<Route>
    decreases rs.len(),
{
    if rs.len() == 0 {
        Seq::empty()
    } else if rs.last().service_name@ != name {
        without_service(rs.drop_last(), name).push(rs.last())
    } else {
        without_service(rs.drop_last(), name)
    }
}

/// What is kept comes from the routes.
proof fn lemma_without_from(rs: Seq<Route>, name: Seq<char>)
    ensures
        forall|x: Route| #[trigger] without_service(rs, name).contains(x) ==> rs.contains(x),
    decreases rs.len(),
{
    if rs.len() > 0 {
        let d = rs.drop_last();
        lemma_without_from(d, name);
        assert forall|x: Route| #[trigger] without_service(rs, name).contains(x) implies rs.contains(x) by {
            if d.contains(x) {
                let k = choose|k: int| 0 <= k < d.len() && d[k] == x;
                assert(rs[k] == x);
            } else {
                let w = without_service(d, name);
                let k = choose|k: int| 0 <= k < without_service(rs, name).len() && without_service(rs, name)[k] == x;
                if k < w.len() {
                    assert(without_service(rs, name)[k] == w[k]);
                    assert(w.contains(x));
                }
                assert(rs[rs.len() - 1] == x);
            }
        }
    }
}

/// Leaving out a service's routes keeps routes longest first.
proof fn lemma_filter_keeps_order(rs: Seq<Route>, name: Seq<char>)
    requires
        longest_first(rs),
    ensures
        longest_first(without_service(rs, name)),
    decreases rs.len(),
{
    if rs.len() > 0 {
        let d = rs.drop_last();
        assert forall|i: int, j: int| 0 <= i <= j < d.len() implies (#[trigger] d[i]).path@.len() >= (#[trigger] d[j]).path@.len() by {
            assert(d[i] == rs[i] && d[j] == rs[j]);
        }
        lemma_filter_keeps_order(d, name);
        lemma_without_from(d, name);
        let fd = without_service(d, name);
        if rs.last().service_name@ != name {
            let u = fd.push(rs.last());
            assert forall|i: int, j: int| 0 <= i <= j < u.len() implies (#[trigger] u[i]).path@.len() >= (#[trigger] u[j]).path@.len() by {
                if j == u.len() - 1 && i < j {
                    assert(u[i] == fd[i]);
                    assert(fd.contains(u[i]));
                    assert(d.contains(u[i]));
                    let k = choose|k: int| 0 <= k < d.len() && d[k] == u[i];
                    assert(rs[k] == d[k]);
                    assert(rs[k].path@.len() >= rs[rs.len() - 1].path@.len());
                } else if j < u.len() - 1 {
                    assert(u[i] == fd[i] && u[j] == fd[j]);
                }
            }
        }
    }
}

/// A host's routes, under the host they serve (none: any host without its own routes).
pub type RouteGroup = (Option<String>, Vec<Route>);

/// What a route table holds: each host key with its routes.
pub uninterp spec fn stored_routes(m: dashmap::DashMap<Option<String>, Vec<Route>>) -> Map<Option<Seq<char>>, Seq<Route>>;

/// No routes at all.
pub open spec fn no_routes() -> Map<Option<Seq<char>>, Seq<Route>> {
    Map::empty()
}

/// The routes of a group, with those of the service `name` on port `port`.
pub open spec fn repoint_routes(rs: Seq<Route>, name: Seq<char>, port: u16) -> Seq<Route> {
    rs.map_values(|r: Route| if r.service_name@ == name { Route { port, ..r } } else { r })
}

/// The host keys of a list of groups, in order.
pub open spec fn group_hosts(gs: Seq<RouteGroup>) -> Seq<Option<Seq<char>>> {
    gs.map_values(|g: RouteGroup| host_view(g.0))
}

/// `gs` lists the groups of `m`: each once, each with its routes.
pub open spec fn lists_groups(gs: Seq<RouteGroup>, m: Map<Option<Seq<char>>, Seq<Route>>) -> bool {
    &&& group_hosts(gs).no_duplicates()
    &&& forall|i: int| 0 <= i < gs.len() ==> m.contains_key(host_view((#[trigger] gs[i]).0)) && m[host_view(gs[i].0)] == gs[i].1@
    &&& forall|h: Option<Seq<char>>| #[trigger] m.contains_key(h) ==> exists|i: int| 0 <= i < gs.len() && host_view((#[trigger] gs[i]).0) == h
}

/// All routes, group after group.
pub open spec fn all_routes(groups: Seq<RouteGroup>) -> Seq<Route>
    decreases groups.len(),
{
    if groups.len() == 0 {
        Seq::empty()
    } else {
        all_routes(groups.drop_last()) + groups.last().1@
    }
}

/// The route a request for `host` and `path` takes: the first matching route of the host's
/// group, otherwise the first matching route of the group without host.
pub open spec fn route_for(groups: Map<Option<Seq<char>>, Seq<Route>>, host: Option<Seq<char>>, path: Seq<char>) -> Option<Route> {
    let by_host = match host {
        Some(h) => if groups.contains_key(Some(h)) { first_match(groups[Some(h)], path) } else { None },
        None => None,
    };
    if by_host is Some {
        by_host
    } else if groups.contains_key(None) {
        first_match(groups[None], path)
    } else {
        None
    }
}

fn copy_routes(rs: &Vec<Route>) -> (r: Vec<Route>)
    ensures
        r@ == rs@,
{
    let mut r: Vec<Route> = Vec::new();
    let mut k: usize = 0;
    while k < rs.len()
        invariant
            k <= rs@.len(),
            r@ == rs@.take(k as int),
        decreases rs@.len() - k,
    {
        r.push(copy_route(&rs[k]));
        assert(r@ =~= rs@.take(k + 1));
        k = k + 1;
    }
    assert(rs@.take(rs@.len() as int) =~= rs@);
    r
}

fn copy_host(h: &Option<String>) -> (r: Option<String>)
    ensures
        r == *h,
{
    match h {
        Some(s) => Some(s.clone()),
        None => None,
    }
}

/// A group of the table, as its host key and a copy of its routes.
fn group_of(host: &Option<String>, rs: &Vec<Route>) -> (r: RouteGroup)
    ensures
        r.0 == *host,
        r.1@ == rs@,
{
    (copy_host(host), copy_routes(rs))
}

/// Leaves out the routes of the service `name`, keeping the order of the others.
fn drop_service(rs: &mut Vec<Route>, name: &str)
    ensures
        final(rs)@ == without_service(old(rs)@, name@),
{
    let mut kept: Vec<Route> = Vec::new();
    let mut k: usize = 0;
    while k < rs.len()
        invariant
            k <= rs@.len(),
            kept@ == without_service(rs@.take(k as int), name@),
        decreases rs@.len() - k,
    {
        proof {
            assert(rs@.take(k + 1).drop_last() =~= rs@.take(k as int));
        }
        if !str_eq(rs[k].service_name.as_str(), name) {
            kept.push(copy_route(&rs[k]));
        }
        assert(kept@ =~= without_service(rs@.take(k + 1), name@));
        k = k + 1;
    }
    assert(rs@.take(rs@.len() as int) =~= rs@);
    *rs = kept;
}

/// Puts the routes of the service `name` on port `port`.
fn repoint(rs: &mut Vec<Route>, name: &str, port: u16)
    ensures
        final(rs)@ == repoint_routes(old(rs)@, name@, port),
{
    let mut upd: Vec<Route> = Vec::new();
    let mut k: usize = 0;
    while k < rs.len()
        invariant
            k <= rs@.len(),
            upd@ == repoint_routes(rs@.take(k as int), name@, port),
        decreases rs@.len() - k,
    {
        let mut r = copy_route(&rs[k]);
        if str_eq(r.service_name.as_str(), name) {
            r.port = port;
        }
        upd.push(r);
        assert(upd@ =~= repoint_routes(rs@.take(k + 1), name@, port));
        k = k + 1;
    }
    assert(rs@.take(rs@.len() as int) =~= rs@);
    *rs = upd;
}

/// An empty table (`DashMap::new`).
#[verifier::external_body]
fn routes_new() -> (r: dashmap::DashMap<Option<String>, Vec<Route>>)
    ensures
        stored_routes(r) == no_routes(),
{
    dashmap::DashMap::new()
}

/// `DashMap::clear`: afterwards the table holds nothing.
#[verifier::external_body]
fn routes_clear(m: &mut dashmap::DashMap<Option<String>, Vec<Route>>)
    ensures
        stored_routes(*final(m)) == no_routes(),
{
    m.clear();
}

/// `DashMap::get`: a copy of the routes under `key`, if there are any.
#[verifier::external_body]
fn routes_get(m: &dashmap::DashMap<Option<String>, Vec<Route>>, key: &Option<String>) -> (r: Option<Vec<Route>>)
    ensures
        match r {
            Some(rs) => stored_routes(*m).contains_key(host_view(*key)) && rs@ == stored_routes(*m)[host_view(*key)],
            None => !stored_routes(*m).contains_key(host_view(*key)),
        },
{
    m.get(key).map(|e| copy_routes(e.value()))
}

/// `DashMap::insert`: afterwards `key` holds `rs`; the other entries stay.
#[verifier::external_body]
fn routes_insert(m: &mut dashmap::DashMap<Option<String>, Vec<Route>>, key: Option<String>, rs: Vec<Route>)
    ensures
        stored_routes(*final(m)) == stored_routes(*old(m)).insert(host_view(key), rs@),
{
    m.insert(key, rs);
}

/// `DashMap::iter_mut`: every group loses the routes of the service `name` (see
/// `drop_service`); the groups stay, emptied ones too.
#[verifier::external_body]
fn routes_drop_service(m: &mut dashmap::DashMap<Option<String>, Vec<Route>>, name: &str)
    ensures
        stored_routes(*final(m)) == stored_routes(*old(m)).map_values(|rs: Seq<Route>| without_service(rs, name@)),
{
    m.iter_mut().for_each(|mut e| drop_service(e.value_mut(), name));
}

/// `DashMap::iter_mut`: in every group the routes of the service `name` move to `port`
/// (see `repoint`).
#[verifier::external_body]
fn routes_repoint(m: &mut dashmap::DashMap<Option<String>, Vec<Route>>, name: &str, port: u16)
    ensures
        stored_routes(*final(m)) == stored_routes(*old(m)).map_values(|rs: Seq<Route>| repoint_routes(rs, name@, port)),
{
    m.iter_mut().for_each(|mut e| repoint(e.value_mut(), name, port));
}

/// `DashMap::iter`: every group, each once, in the order the table is walked.
#[verifier::external_body]
fn routes_groups(m: &dashmap::DashMap<Option<String>, Vec<Route>>) -> (r: Vec<RouteGroup>)
    ensures
        lists_groups(r@, stored_routes(*m)),
{
    m.iter().map(|e| group_of(e.key(), e.value())).collect()
}

/// The routes of the proxy, grouped by host.
pub struct ServiceProxyState {
    pub routes: dashmap::DashMap<Option<String>, Vec<Route>>,
    pub show_error_logs: bool,
    pub debug_headers: bool,
}

/// `after` is `before` with every route of the service `name` on port `port`.
pub open spec fn repointed(before: ServiceProxyState, after: ServiceProxyState, name: Seq<char>, port: u16) -> bool {
    &&& after.groups() == before.groups().map_values(|rs: Seq<Route>| repoint_routes(rs, name, port))
    &&& after.show_error_logs == before.show_error_logs
    &&& after.debug_headers == before.debug_headers
}

impl ServiceProxyState {
    /// The routes, by host key.
    pub closed spec fn groups(&self) -> Map<Option<Seq<char>>, Seq<Route>> {
        stored_routes(self.routes)
    }

    /// Each group is kept longest path first.
    pub open spec fn wf(&self) -> bool {
        forall|h: Option<Seq<char>>| #[trigger] self.groups().contains_key(h) ==> longest_first(self.groups()[h])
    }

    /// No routes; error logs shown on error pages, no debug headers.
    pub fn new() -> (r: Self)
        ensures
            r.wf(),
            r.groups() == no_routes(),
            r.show_error_logs,
            !r.debug_headers,
    {
        ServiceProxyState { routes: routes_new(), show_error_logs: true, debug_headers: false }
    }

    /// Whether error pages show recent logs.
    pub fn set_show_error_logs(&mut self, show: bool)
        ensures
            final(self).show_error_logs == show,
            final(self).groups() == old(self).groups(),
            final(self).debug_headers == old(self).debug_headers,
    {
        self.show_error_logs = show;
    }

    /// Forgets all routes.
    pub fn clear_routes(&mut self)
        ensures
            final(self).wf(),
            final(self).groups() == no_routes(),
            final(self).show_error_logs == old(self).show_error_logs,
            final(self).debug_headers == old(self).debug_headers,
    {
        routes_clear(&mut self.routes);
    }

    /// Adds a route to the group of its host, after the routes with paths at least as
    /// long and before the shorter ones.
    pub fn add_route(&mut self, route: Route)
        requires
            old(self).wf(),
        ensures
            final(self).wf(),
            final(self).groups().contains_key(host_view(route.host)),
            final(self).groups()[host_view(route.host)].to_multiset() == (if old(self).groups().contains_key(host_view(route.host)) {
                old(self).groups()[host_view(route.host)]
            } else {
                Seq::empty()
            }).to_multiset().insert(route),
            final(self).groups() == old(self).groups().insert(host_view(route.host), final(self).groups()[host_view(route.host)]),
            final(self).show_error_logs == old(self).show_error_logs,
            final(self).debug_headers == old(self).debug_headers,
    {
        broadcast use vstd::seq_lib::to_multiset_insert;

        let key = copy_host(&route.host);
        let ghost hv = host_view(route.host);
        match routes_get(&self.routes, &key) {
            Some(mut rs) => {
                let n = chars_of(route.path.as_str()).len();
                let mut p: usize = 0;
                while p < rs.len() && chars_of(rs[p].path.as_str()).len() >= n
                    invariant
                        p <= rs@.len(),
                        n == route.path@.len(),
                        forall|q: int| 0 <= q < p ==> (#[trigger] rs@[q]).path@.len() >= n,
                    decreases rs.len() - p,
                {
                    p = p + 1;
                }
                let ghost old_rs = rs@;
                proof {
                    assert(self.groups().contains_key(hv));
                    assert(longest_first(old_rs));
                    lemma_insert_keeps_order(old_rs, p as int, route);
                }
                rs.insert(p, route);
                proof {
                    assert(rs@.to_multiset() == old_rs.to_multiset().insert(rs@[p as int]));
                }
                routes_insert(&mut self.routes, key, rs);
            },
            None => {
                let rs = vec![route];
                proof {
                    assert(Seq::<Route>::empty().insert(0, rs@[0]) =~= rs@);
                }
                routes_insert(&mut self.routes, key, rs);
            },
        }
        assert(self.groups() =~= old(self).groups().insert(hv, self.groups()[hv]));
    }

    /// Removes the routes of a service from every group.
    pub fn remove_service_routes(&mut self, service_name: &str)
        requires
            old(self).wf(),
        ensures
            final(self).wf(),
            final(self).groups() == old(self).groups().map_values(|rs: Seq<Route>| without_service(rs, service_name@)),
            final(self).show_error_logs == old(self).show_error_logs,
            final(self).debug_headers == old(self).debug_headers,
    {
        routes_drop_service(&mut self.routes, service_name);
        proof {
            assert forall|h: Option<Seq<char>>| #[trigger] self.groups().contains_key(h) implies longest_first(self.groups()[h]) by {
                lemma_filter_keeps_order(old(self).groups()[h], service_name@);
            }
        }
    }

    /// The route a request for `host` and `path` takes: the first (longest) route of the
    /// host's group whose path is a prefix of `path`, else the first of the group without
    /// host.
    pub fn find_route(&self, host: Option<&str>, path: &str) -> (r: Option<Route>)
        ensures
            r == route_for(self.groups(), match host {
                Some(h) => Some(h@),
                None => None,
            }, path@),
    {
        match host {
            Some(h) => {
                match routes_get(&self.routes, &Some(h.to_owned())) {
                    Some(rs) => {
                        match first_match_of(&rs, path) {
                            Some(r) => return Some(r),
                            None => {},
                        }
                    },
                    None => {},
                }
            },
            None => {},
        }
        match routes_get(&self.routes, &None) {
            Some(rs) => first_match_of(&rs, path),
            None => None,
        }
    }

    /// Points the routes of a service at a new port.
    pub fn update_service_port(&mut self, service_name: &str, port: u16)
        requires
            old(self).wf(),
        ensures
            final(self).wf(),
            repointed(*old(self), *final(self), service_name@, port),
    {
        routes_repoint(&mut self.routes, service_name, port);
        proof {
            assert forall|h: Option<Seq<char>>| #[trigger] self.groups().contains_key(h) implies longest_first(self.groups()[h]) by {
                let o = old(self).groups()[h];
                let u = self.groups()[h];
                assert(u == repoint_routes(o, service_name@, port));
                assert forall|a: int, b: int| 0 <= a <= b < u.len() implies (#[trigger] u[a]).path@.len() >= (#[trigger] u[b]).path@.len() by {
                    assert(u[a].path == o[a].path);
                    assert(u[b].path == o[b].path);
                }
            }
        }
    }

    /// All routes, group after group, the groups in the order the table is walked.
    pub fn list_routes(&self) -> (r: Vec<Route>)
        ensures
            exists|gs: Seq<RouteGroup>| lists_groups(gs, self.groups()) && r@ == all_routes(gs),
    {
        let groups = routes_groups(&self.routes);
        let mut r: Vec<Route> = Vec::new();
        let mut i: usize = 0;
        while i < groups.len()
            invariant
                i <= groups@.len(),
                r@ == all_routes(groups@.take(i as int)),
            decreases groups.len() - i,
        {
            assert(groups@.take(i + 1).drop_last() =~= groups@.take(i as int));
            let group = &groups[i].1;
            let ghost r0 = r@;
            let mut k: usize = 0;
            while k < group.len()
                invariant
                    k <= group@.len(),
                    r@ == r0 + group@.take(k as int),
                decreases group.len() - k,
            {
                r.push(copy_route(&group[k]));
                assert(r@ =~= r0 + group@.take(k + 1));
                k = k + 1;
            }
            assert(group@.take(group@.len() as int) =~= group@);
            assert(r@ =~= all_routes(groups@.take(i + 1)));
            i = i + 1;
        }
        assert(groups@.take(groups@.len() as int) =~= groups@);
        r
    }
}


// ---------------------------------------------------------------------------
// Ports, paths and timeouts
// ---------------------------------------------------------------------------

/// The port an endpoint names, given the service's ports by name: without a reference the
/// `http` port; `{{runtime.port.NAME}}` the port called `NAME`; otherwise the reference
/// read as a port number.
pub open spec fn resolved_port(port_ref: Option<Seq<char>>, ports: Map<Seq<char>, u16>) -> Option<u16> {
    match port_ref {
        None => if ports.contains_key("http"@) { Some(ports["http"@]) } else { None },
        Some(s) => if has_prefix(s, "{{runtime.port."@) && has_suffix(s, "}}"@) && s.len() >= 17 {
            let name = s.subrange(15, s.len() - 2);
            if ports.contains_key(name) { Some(ports[name]) } else { None }
        } else {
            match parse_unsigned(s, u16::MAX as nat) {
                Some(v) => Some(v as u16),
                None => None,
            }
        },
    }
}

/// The port an endpoint's port reference names.
pub fn resolve_port(port_ref: &Option<String>, ports: &[(String, u16)]) -> (r: Option<u16>)
    ensures
        r == resolved_port(host_view(*port_ref), crate::assoc::assoc_view(ports@)),
{
    proof {
        reveal_strlit("{{runtime.port.");
        reveal_strlit("}}");
    }
    match port_ref {
        None => {
            let k = chars_of("http");
            assoc_get(ports, &k)
        },
        Some(s) => {
            let c = chars_of(s.as_str());
            if str_starts_with(s.as_str(), "{{runtime.port.") && crate::text::str_ends_with(s.as_str(), "}}") && c.len() >= 17 {
                let name = slice_chars(&c, 15, c.len() - 2);
                assoc_get(ports, &name)
            } else {
                parse_u16(&c)
            }
        },
    }
}

/// A route path: with a leading `/`, and without a trailing `/` unless it is just `/`.
pub open spec fn normalized_path(path: Seq<char>) -> Seq<char> {
    let p = if path.len() > 0 && path[0] == '/' { path } else { seq!['/'] + path };
    if p.len() > 1 && p.last() == '/' { p.drop_last() } else { p }
}

/// `path` as a route path.
pub fn normalize_path(path: &str) -> (r: String)
    ensures
        r@ == normalized_path(path@),
{
    let c = chars_of(path);
    let mut p: Vec<char> = Vec::new();
    if !(c.len() > 0 && c[0] == '/') {
        p.push('/');
    }
    crate::text::push_all(&mut p, &c);
    if p.len() > 1 && p[p.len() - 1] == '/' {
        p.pop();
    }
    let r = string_of(&p);
    assert(r@ =~= normalized_path(path@));
    r
}

/// A route timeout in milliseconds: the endpoint's timeout as read (truncated to 64 bits,
/// as a cast does), or a minute.
pub open spec fn timeout_millis(parsed: Option<Duration>) -> u64 {
    match parsed {
        Some(d) => ((d.secs as int * 1000 + d.nanos as int / 1_000_000) % 18_446_744_073_709_551_616) as u64,
        None => 60_000,
    }
}

/// The timeout of a route, from the endpoint's timeout read as a duration (`None` when it
/// is missing or unreadable).
pub fn parse_timeout(parsed: Option<Duration>) -> (r: u64)
    ensures
        r == timeout_millis(parsed),
{
    match parsed {
        Some(d) => {
            let m: u128 = (d.secs as u128) * 1000 + (d.nanos / 1_000_000) as u128;
            (m % 18_446_744_073_709_551_616u128) as u64
        },
        None => 60_000,
    }
}

/// A route's timeout is its duration in whole milliseconds: when that number fits in 64
/// bits, it is the largest count of milliseconds not longer than the duration; a missing
/// or unreadable duration gives a minute.
pub proof fn lemma_timeout_whole_millis(d: Duration)
    requires
        d.wf(),
        d.total_nanos() < 18_446_744_073_709_551_616 * 1_000_000,
    ensures
        timeout_millis(Some(d)) * 1_000_000 <= d.total_nanos() < (timeout_millis(Some(d)) + 1) * 1_000_000,
        timeout_millis(None) == 60_000,
{
    let n = d.nanos as int;
    vstd::arithmetic::div_mod::lemma_fundamental_div_mod(n, 1_000_000);
    let q = n / 1_000_000;
    assert(0 <= n % 1_000_000 < 1_000_000) by {
        vstd::arithmetic::div_mod::lemma_mod_bound(n, 1_000_000);
    }
    let m = d.secs as int * 1000 + q;
    assert(m * 1_000_000 == d.secs as int * 1_000_000_000 + q * 1_000_000) by (nonlinear_arith)
        requires
            m == d.secs as int * 1000 + q;
    assert(m < 18_446_744_073_709_551_616) by (nonlinear_arith)
        requires
            m * 1_000_000 <= d.total_nanos(),
            d.total_nanos() < 18_446_744_073_709_551_616 * 1_000_000;
    assert(m >= 0);
    assert(m % 18_446_744_073_709_551_616 == m) by {
        vstd::arithmetic::div_mod::lemma_small_mod(m as nat, 18_446_744_073_709_551_616);
    }
}

/// The path and query a request is forwarded with: the route's prefix removed when it
/// strips it (leaving at least `/`, and always a leading `/`), then `?query` if any.
pub open spec fn target_path(route_path: Seq<char>, strip: bool, path: Seq<char>, query: Option<Seq<char>>) -> Seq<char> {
    let t = if strip {
        let stripped = if has_prefix(path, route_path) { path.skip(route_path.len() as int) } else { path };
        if stripped.len() == 0 || stripped == seq!['/'] {
            seq!['/']
        } else if stripped[0] == '/' {
            stripped
        } else {
            seq!['/'] + stripped
        }
    } else {
        path
    };
    match query {
        Some(q) => t + seq!['?'] + q,
        None => t,
    }
}

/// The path and query a request is forwarded with.
pub fn compute_target_path(route: &Route, path: &str, query: Option<&str>) -> (r: String)
    ensures
        r@ == target_path(route.path@, route.strip_prefix, path@, match query {
            Some(q) => Some(q@),
            None => None,
        }),
{
    let pc = chars_of(path);
    let mut t: Vec<char> = Vec::new();
    if route.strip_prefix {
        let rp = chars_of(route.path.as_str());
        let stripped = if crate::text::chars_start_with(&pc, &rp) { slice_chars(&pc, rp.len(), pc.len()) } else { slice_chars(&pc, 0, pc.len()) };
        assert(pc@.subrange(0, pc@.len() as int) =~= pc@);
        assert(pc@.subrange(rp@.len() as int, pc@.len() as int) =~= pc@.skip(rp@.len() as int));
        if stripped.len() == 0 || (stripped.len() == 1 && stripped[0] == '/') {
            t.push('/');
            assert(stripped.len() == 1 ==> stripped@ =~= seq!['/']);
        } else if stripped[0] == '/' {
            crate::text::push_all(&mut t, &stripped);
            assert(stripped@ != seq!['/']);
        } else {
            t.push('/');
            crate::text::push_all(&mut t, &stripped);
        }
    } else {
        crate::text::push_all(&mut t, &pc);
    }
    match query {
        Some(q) => {
            t.push('?');
            crate::text::push_str(&mut t, q);
        },
        None => {},
    }
    let r = string_of(&t);
    assert(r@ =~= target_path(route.path@, route.strip_prefix, path@, match query {
        Some(q) => Some(q@),
        None => None,
    }));
    r
}

/// A request's query goes upstream whatever the route: the target with a query is the
/// target without it, then `?` and the query unchanged. A route that does not strip its
/// prefix forwards the request path as it came; one that strips it forwards a path that
/// starts with `/`, which for a request under the prefix is what follows the prefix when
/// that starts with `/` and is more than `/`.
pub proof fn lemma_target_path_laws(route_path: Seq<char>, strip: bool, path: Seq<char>, q: Seq<char>)
    ensures
        target_path(route_path, strip, path, Some(q)) == target_path(route_path, strip, path, None) + seq!['?'] + q,
        target_path(route_path, false, path, None) == path,
        target_path(route_path, true, path, None).len() > 0 && target_path(route_path, true, path, None)[0] == '/',
        has_prefix(path, route_path) && path.len() > route_path.len() + 1 && path[route_path.len() as int] == '/'
            ==> target_path(route_path, true, path, None) == path.skip(route_path.len() as int),
        has_prefix(path, route_path) && path.len() > route_path.len() && path[route_path.len() as int] != '/'
            ==> target_path(route_path, true, path, None) == seq!['/'] + path.skip(route_path.len() as int),
        has_prefix(path, route_path) && path.len() <= route_path.len() + 1 && (path.len() == route_path.len()
            || path[route_path.len() as int] == '/') ==> target_path(route_path, true, path, None) == seq!['/'],
        !has_prefix(path, route_path) && path.len() > 0 && path[0] == '/' ==> target_path(route_path, true, path, None) == path,
{
    let stripped = if has_prefix(path, route_path) { path.skip(route_path.len() as int) } else { path };
    if !(stripped.len() == 0 || stripped == seq!['/']) && stripped[0] != '/' {
        assert((seq!['/'] + stripped)[0] == '/');
    }
    if has_prefix(path, route_path) && path.len() > route_path.len() && path[route_path.len() as int] != '/' {
        let s = path.skip(route_path.len() as int);
        assert(s[0] == path[route_path.len() as int]);
        assert(s != seq!['/']);
    }
    if has_prefix(path, route_path) && path.len() <= route_path.len() + 1 && path.len() > route_path.len() && path[route_path.len() as int] == '/' {
        let s = path.skip(route_path.len() as int);
        assert(s =~= seq!['/']);
    }
    if !has_prefix(path, route_path) && path.len() > 0 && path[0] == '/' && path.len() == 1 {
        assert(path =~= seq!['/']);
    }
    if has_prefix(path, route_path) && path.len() > route_path.len() + 1 && path[route_path.len() as int] == '/' {
        let s = path.skip(route_path.len() as int);
        assert(s[0] == '/');
        assert(s.len() > 1);
        assert(s != seq!['/']);
    }
}

/// Among routes kept longest first, the route a request takes is a longest route whose
/// path is a prefix of the request path; when none is found, no route's path is a prefix.
pub proof fn lemma_first_match_longest(rs: Seq<Route>, path: Seq<char>)
    requires
        longest_first(rs),
    ensures
        first_match(rs, path) matches Some(r) ==> has_prefix(path, r.path@) && rs.contains(r) && forall|i: int|
            0 <= i < rs.len() && has_prefix(path, (#[trigger] rs[i]).path@) ==> rs[i].path@.len() <= r.path@.len(),
        first_match(rs, path) is None ==> forall|i: int| 0 <= i < rs.len() ==> !has_prefix(path, (#[trigger] rs[i]).path@),
    decreases rs.len(),
{
    if rs.len() > 0 {
        let d = rs.drop_first();
        assert forall|i: int, j: int| 0 <= i <= j < d.len() implies (#[trigger] d[i]).path@.len() >= (#[trigger] d[j]).path@.len() by {
            assert(d[i] == rs[i + 1] && d[j] == rs[j + 1]);
        }
        lemma_first_match_longest(d, path);
        if has_prefix(path, rs[0].path@) {
            assert(rs.contains(rs[0]));
        } else {
            if let Some(r) = first_match(d, path) {
                let k = choose|k: int| 0 <= k < d.len() && d[k] == r;
                assert(rs[k + 1] == r);
                assert forall|i: int| 0 <= i < rs.len() && has_prefix(path, (#[trigger] rs[i]).path@) implies rs[i].path@.len() <= r.path@.len() by {
                    if i > 0 {
                        assert(rs[i] == d[i - 1]);
                    }
                }
            } else {
                assert forall|i: int| 0 <= i < rs.len() implies !has_prefix(path, (#[trigger] rs[i]).path@) by {
                    if i > 0 {
                        assert(rs[i] == d[i - 1]);
                    }
                }
            }
        }
    }
}

} // verus!
