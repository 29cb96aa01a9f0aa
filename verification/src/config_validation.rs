//! Checks of a whole hive configuration: its version, each service, the dependencies
//! between services, and what services must not share (ports, proxy routes, exposed
//! names).

use vstd::prelude::*;
use crate::config::{proxy_endpoints, BlueGreenPort, BlueGreenRolloutConfig, PortValue, RecreateRolloutConfig, ServiceConfig, ServiceProxyConfig};
use crate::defaults::{entries_view, json_view, Json, JsonView};
use crate::deps::{check_circular_dependencies, circular_text, distinct_names, involving_text, orderable, DependencyError, ServiceDeps};
use crate::proxy_middleware::{join_strings, join_with};
use crate::settings::string_views;
use crate::text::{chars_of, decimal, parse_u64, parse_unsigned, str_eq, string_of, texts, u64_decimal};
use crate::validation::{name_errors, service_errors, service_warnings, validate_service, validate_service_name, Issue, ValidationResult};

verus! {

/// The error about the configuration's version: only `1` is supported.
pub open spec fn version_errors(v: Seq<char>) -> Seq<Issue> {
    if v == "1"@ {
        Seq::empty()
    } else {
        seq![("version"@, "Unsupported version: "@ + v + ". Expected \"1\""@)]
    }
}

/// The names of the services.
pub open spec fn service_names(svcs: Seq<(String, ServiceConfig)>) -> Seq<Seq<char>> {
    svcs.map_values(|e: (String, ServiceConfig)| e.0@)
}

/// The errors about the first `n` services: each one's name, then the service itself.
pub open spec fn services_errors(svcs: Seq<(String, ServiceConfig)>, all: Seq<Seq<char>>, n: nat) -> Seq<Issue>
    decreases n,
{
    if n == 0 || n > svcs.len() {
        Seq::empty()
    } else {
        services_errors(svcs, all, (n - 1) as nat) + name_errors(svcs[n - 1].0@) + service_errors(
            svcs[n - 1].0@,
            svcs[n - 1].1,
            all,
        )
    }
}

/// The warnings about the first `n` services.
pub open spec fn services_warnings(svcs: Seq<(String, ServiceConfig)>, n: nat) -> Seq<Issue>
    decreases n,
{
    if n == 0 || n > svcs.len() {
        Seq::empty()
    } else {
        services_warnings(svcs, (n - 1) as nat) + service_warnings(svcs[n - 1].0@, svcs[n - 1].1)
    }
}

// ---------------------------------------------------------------------------
// Ports
// ---------------------------------------------------------------------------

/// Each use of a port: the port and `<service>:<port name>`, service by service.
pub open spec fn port_uses(svcs: Seq<(String, ServiceConfig)>, ports: Seq<Option<Vec<(String, u16)>>>, n: nat) -> Seq<(u16, Seq<char>)>
    decreases n,
{
    if n == 0 || n > svcs.len() || n > ports.len() {
        Seq::empty()
    } else {
        port_uses(svcs, ports, (n - 1) as nat) + match ports[n - 1] {
            Some(v) => v@.map_values(|p: (String, u16)| (p.1, svcs[n - 1].0@ + ":"@ + p.0@)),
            None => Seq::empty(),
        }
    }
}

/// The position of the first group of `port`, if there is one.
pub open spec fn group_index(groups: Seq<(u16, Seq<Seq<char>>)>, port: u16) -> Option<int>
    decreases groups.len(),
{
    if groups.len() == 0 {
        None
    } else {
        match group_index(groups.drop_last(), port) {
            Some(i) => Some(i),
            None => if groups.last().0 == port {
                Some(groups.len() - 1)
            } else {
                None
            },
        }
    }
}

/// The uses grouped by port: the ports in the order they are first used, each with its
/// users in order.
pub open spec fn port_groups(uses: Seq<(u16, Seq<char>)>) -> Seq<(u16, Seq<Seq<char>>)>
    decreases uses.len(),
{
    if uses.len() == 0 {
        Seq::empty()
    } else {
        let g = port_groups(uses.drop_last());
        let (p, who) = uses.last();
        match group_index(g, p) {
            Some(i) => g.update(i, (p, g[i].1.push(who))),
            None => g.push((p, seq![who])),
        }
    }
}

/// The errors about ports used more than once, port by port.
pub open spec fn port_errors(groups: Seq<(u16, Seq<Seq<char>>)>) -> Seq<Issue>
    decreases groups.len(),
{
    if groups.len() == 0 {
        Seq::empty()
    } else {
        port_errors(groups.drop_last()) + if groups.last().1.len() > 1 {
            seq![
                (
                    "services"@,
                    "Port "@ + decimal(groups.last().0 as nat) + " is used by multiple services: "@ + join_with(
                        groups.last().1,
                        ", "@,
                    ),
                ),
            ]
        } else {
            Seq::empty()
        }
    }
}

// ---------------------------------------------------------------------------
// Routes and exposed names
// ---------------------------------------------------------------------------

/// A route of a service: the service, the host and the path prefix.
pub type RouteUse = (Seq<char>, Option<Seq<char>>, Seq<char>);

/// The text of an optional string.
pub open spec fn opt_string(o: Option<String>) -> Option<Seq<char>> {
    match o {
        Some(s) => Some(s@),
        None => None,
    }
}

/// The routes of the first `n` services, service by service.
pub open spec fn route_uses(svcs: Seq<(String, ServiceConfig)>, n: nat) -> Seq<RouteUse>
    decreases n,
{
    if n == 0 || n > svcs.len() {
        Seq::empty()
    } else {
        route_uses(svcs, (n - 1) as nat) + match svcs[n - 1].1.proxy {
            Some(p) => proxy_endpoints(p).map_values(|e: crate::config::ProxyEndpoint| (svcs[n - 1].0@, opt_string(e.host), e.path@)),
            None => Seq::empty(),
        }
    }
}

/// The service of the first of the first `n` routes with the host and path of `r`.
pub open spec fn first_route_owner(routes: Seq<RouteUse>, n: int, r: RouteUse) -> Option<Seq<char>>
    decreases n,
{
    if n <= 0 {
        None
    } else {
        match first_route_owner(routes, n - 1, r) {
            Some(s) => Some(s),
            None => if routes[n - 1].1 == r.1 && routes[n - 1].2 == r.2 {
                Some(routes[n - 1].0)
            } else {
                None
            },
        }
    }
}

/// What `{:?}` writes for an optional host: `None`, or `Some(` and the host as a quoted,
/// escaped string literal, and `)`.
pub uninterp spec fn option_debug(o: Option<Seq<char>>) -> Seq<char>;

/// `format!("{:?}", host)` for an `Option<String>`. The text is only named
/// (`option_debug`), not described.
#[verifier::external_body]
fn debug_host(host: &Option<String>) -> (r: String)
    ensures
        r@ == option_debug(opt_string(*host)),
{
    format!("{:?}", host)
}

/// The errors about routes that an earlier route already has (the same host and path),
/// naming the service of the earliest.
pub open spec fn route_errors(routes: Seq<RouteUse>, n: nat) -> Seq<Issue>
    decreases n,
{
    if n == 0 || n > routes.len() {
        Seq::empty()
    } else {
        let r = routes[n - 1];
        route_errors(routes, (n - 1) as nat) + match first_route_owner(routes, n - 1, r) {
            Some(owner) => seq![
                (
                    "services."@ + r.0 + ".proxy"@,
                    "Route "@ + option_debug(r.1) + "/"@ + r.2 + " conflicts with service "@ + owner,
                ),
            ],
            None => Seq::empty(),
        }
    }
}

/// The exposed names of the first `n` services: the service and the name.
pub open spec fn expose_uses(svcs: Seq<(String, ServiceConfig)>, n: nat) -> Seq<(Seq<char>, Seq<char>)>
    decreases n,
{
    if n == 0 || n > svcs.len() {
        Seq::empty()
    } else {
        expose_uses(svcs, (n - 1) as nat) + match svcs[n - 1].1.expose {
            Some(e) => seq![(svcs[n - 1].0@, e.name@)],
            None => Seq::empty(),
        }
    }
}

/// The service of the first of the first `n` uses of the exposed name `x`.
pub open spec fn first_expose_owner(uses: Seq<(Seq<char>, Seq<char>)>, n: int, x: Seq<char>) -> Option<Seq<char>>
    decreases n,
{
    if n <= 0 {
        None
    } else {
        match first_expose_owner(uses, n - 1, x) {
            Some(s) => Some(s),
            None => if uses[n - 1].1 == x {
                Some(uses[n - 1].0)
            } else {
                None
            },
        }
    }
}

/// The errors about exposed names that an earlier service already exposes.
pub open spec fn expose_errors(uses: Seq<(Seq<char>, Seq<char>)>, n: nat) -> Seq<Issue>
    decreases n,
{
    if n == 0 || n > uses.len() {
        Seq::empty()
    } else {
        let u = uses[n - 1];
        expose_errors(uses, (n - 1) as nat) + match first_expose_owner(uses, n - 1, u.1) {
            Some(owner) => seq![
                (
                    "services."@ + u.0 + ".expose.name"@,
                    "Expose name '"@ + u.1 + "' conflicts with service "@ + owner,
                ),
            ],
            None => Seq::empty(),
        }
    }
}

// ---------------------------------------------------------------------------
// The checks
// ---------------------------------------------------------------------------

/// The views of port uses.
pub open spec fn use_views(v: Seq<(u16, String)>) -> Seq<(u16, Seq<char>)> {
    v.map_values(|u: (u16, String)| (u.0, u.1@))
}

/// The views of port groups.
pub open spec fn group_views(v: Seq<(u16, Vec<String>)>) -> Seq<(u16, Seq<Seq<char>>)> {
    v.map_values(|g: (u16, Vec<String>)| (g.0, string_views(g.1@)))
}

fn collect_port_uses(services: &Vec<(String, ServiceConfig)>, ports: &Vec<Option<Vec<(String, u16)>>>) -> (r: Vec<(u16, String)>)
    requires
        ports@.len() == services@.len(),
    ensures
        use_views(r@) == port_uses(services@, ports@, services@.len() as nat),
{
    let mut r: Vec<(u16, String)> = Vec::new();
    let mut i: usize = 0;
    while i < services.len()
        invariant
            i <= services@.len(),
            ports@.len() == services@.len(),
            use_views(r@) == port_uses(services@, ports@, i as nat),
        decreases services@.len() - i,
    {
        let ghost before = use_views(r@);
        match &ports[i] {
            Some(v) => {
                let mut k: usize = 0;
                while k < v.len()
                    invariant
                        k <= v@.len(),
                        i < services@.len(),
                        ports@.len() == services@.len(),
                        ports@[i as int] == Some(*v),
                        use_views(r@) == before + v@.take(k as int).map_values(|p: (String, u16)| (p.1, services@[i as int].0@ + ":"@ + p.0@)),
                    decreases v@.len() - k,
                {
                    let mut label = services[i].0.clone();
                    label.append(":");
                    label.append(v[k].0.as_str());
                    let ghost prior = r@;
                    r.push((v[k].1, label));
                    proof {
                        reveal_strlit(":");
                        assert(v@.take(k + 1) =~= v@.take(k as int).push(v@[k as int]));
                        assert(use_views(r@) =~= use_views(prior).push((v@[k as int].1, services@[i as int].0@ + ":"@ + v@[k as int].0@)));
                        assert(use_views(r@) =~= before + v@.take(k + 1).map_values(|p: (String, u16)| (p.1, services@[i as int].0@ + ":"@ + p.0@)));
                    }
                    k = k + 1;
                }
                assert(v@.take(v@.len() as int) =~= v@);
            },
            None => {
                assert(use_views(r@) =~= before + Seq::<(u16, Seq<char>)>::empty());
            },
        }
        i = i + 1;
    }
    r
}

proof fn lemma_group_index(groups: Seq<(u16, Seq<Seq<char>>)>, port: u16)
    ensures
        match group_index(groups, port) {
            Some(i) => 0 <= i < groups.len() && groups[i].0 == port && forall|j: int| 0 <= j < i ==> groups[j].0 != port,
            None => forall|j: int| 0 <= j < groups.len() ==> groups[j].0 != port,
        },
    decreases groups.len(),
{
    if groups.len() > 0 {
        lemma_group_index(groups.drop_last(), port);
        assert forall|j: int| 0 <= j < groups.len() - 1 implies groups.drop_last()[j] == groups[j] by {}
    }
}

fn group_ports(uses: &Vec<(u16, String)>) -> (r: Vec<(u16, Vec<String>)>)
    ensures
        group_views(r@) == port_groups(use_views(uses@)),
{
    let mut groups: Vec<(u16, Vec<String>)> = Vec::new();
    let mut i: usize = 0;
    while i < uses.len()
        invariant
            i <= uses@.len(),
            group_views(groups@) == port_groups(use_views(uses@.take(i as int))),
        decreases uses@.len() - i,
    {
        let ghost u = use_views(uses@.take(i + 1));
        assert(u.drop_last() =~= use_views(uses@.take(i as int)));
        assert(u.last() == (uses@[i as int].0, uses@[i as int].1@));
        let p = uses[i].0;
        let who = uses[i].1.clone();
        let ghost g = group_views(groups@);
        proof {
            lemma_group_index(g, p);
        }
        let mut j: usize = 0;
        let mut found: Option<usize> = None;
        while j < groups.len()
            invariant
                j <= groups@.len(),
                g == group_views(groups@),
                found matches Some(x) ==> x < j && groups@[x as int].0 == p && forall|q: int| 0 <= q < x ==> groups@[q].0 != p,
                found is None ==> forall|q: int| 0 <= q < j ==> groups@[q].0 != p,
            decreases groups@.len() - j,
        {
            if found.is_none() && groups[j].0 == p {
                found = Some(j);
            }
            j = j + 1;
        }
        match found {
            Some(x) => {
                proof {
                    assert(g[x as int].0 == p);
                    if group_index(g, p) != Some(x as int) {
                        let y = group_index(g, p)->0;
                        assert(g[y].0 == groups@[y].0);
                    }
                }
                let mut members: Vec<String> = Vec::new();
                let mut k: usize = 0;
                while k < groups[x].1.len()
                    invariant
                        k <= groups@[x as int].1@.len(),
                        x < groups@.len(),
                        string_views(members@) == string_views(groups@[x as int].1@.take(k as int)),
                    decreases groups@[x as int].1@.len() - k,
                {
                    let m = groups[x].1[k].clone();
                    let ghost prior = members@;
                    members.push(m);
                    assert(groups@[x as int].1@.take(k + 1) =~= groups@[x as int].1@.take(k as int).push(groups@[x as int].1@[k as int]));
                    assert(string_views(members@) =~= string_views(prior).push(m@));
                    assert(string_views(members@) =~= string_views(groups@[x as int].1@.take(k + 1)));
                    k = k + 1;
                }
                assert(groups@[x as int].1@.take(groups@[x as int].1@.len() as int) =~= groups@[x as int].1@);
                let ghost before_members = string_views(members@);
                members.push(who);
                assert(string_views(members@) =~= before_members.push(uses@[i as int].1@));
                let ghost prior = groups@;
                groups.set(x, (p, members));
                assert(group_views(groups@) =~= g.update(x as int, (p, g[x as int].1.push(uses@[i as int].1@))));
            },
            None => {
                let mut members: Vec<String> = Vec::new();
                members.push(who);
                assert(string_views(members@) =~= seq![uses@[i as int].1@]);
                groups.push((p, members));
                assert(group_views(groups@) =~= g.push((p, seq![uses@[i as int].1@])));
            },
        }
        i = i + 1;
    }
    assert(uses@.take(uses@.len() as int) =~= uses@);
    groups
}

fn add_port_errors(groups: &Vec<(u16, Vec<String>)>, result: &mut ValidationResult)
    ensures
        final(result).errors_view() == old(result).errors_view() + port_errors(group_views(groups@)),
        final(result).warnings_view() == old(result).warnings_view(),
{
    let mut i: usize = 0;
    while i < groups.len()
        invariant
            i <= groups@.len(),
            result.errors_view() == old(result).errors_view() + port_errors(group_views(groups@.take(i as int))),
            result.warnings_view() == old(result).warnings_view(),
        decreases groups@.len() - i,
    {
        let ghost gv = group_views(groups@.take(i + 1));
        assert(gv.drop_last() =~= group_views(groups@.take(i as int)));
        assert(gv.last() == (groups@[i as int].0, string_views(groups@[i as int].1@)));
        let ghost before = result.errors_view();
        if groups[i].1.len() > 1 {
            let mut m = "Port ".to_owned();
            m.append(string_of(&u64_decimal(groups[i].0 as u64)).as_str());
            m.append(" is used by multiple services: ");
            m.append(join_strings(&groups[i].1, ", ").as_str());
            result.add_error("services", m.as_str());
        }
        proof {
            assert(string_views(groups@[i as int].1@).len() == groups@[i as int].1@.len());
        }
        assert(result.errors_view() =~= old(result).errors_view() + port_errors(gv));
        i = i + 1;
    }
    assert(groups@.take(groups@.len() as int) =~= groups@);
}

/// The views of routes.
pub open spec fn route_views(v: Seq<(String, Option<String>, String)>) -> Seq<RouteUse> {
    v.map_values(|r: (String, Option<String>, String)| (r.0@, opt_string(r.1), r.2@))
}

fn copy_opt(o: &Option<String>) -> (r: Option<String>)
    ensures
        opt_string(r) == opt_string(*o),
{
    match o {
        Some(s) => Some(s.clone()),
        None => None,
    }
}

fn collect_routes(services: &Vec<(String, ServiceConfig)>) -> (r: Vec<(String, Option<String>, String)>)
    ensures
        route_views(r@) == route_uses(services@, services@.len() as nat),
{
    let mut r: Vec<(String, Option<String>, String)> = Vec::new();
    let mut i: usize = 0;
    while i < services.len()
        invariant
            i <= services@.len(),
            route_views(r@) == route_uses(services@, i as nat),
        decreases services@.len() - i,
    {
        let ghost before = route_views(r@);
        let ghost name = services@[i as int].0@;
        match &services[i].1.proxy {
            Some(ServiceProxyConfig::Single(e)) => {
                let ghost prior = r@;
                r.push((services[i].0.clone(), copy_opt(&e.host), e.path.clone()));
                assert(route_views(r@) =~= before + proxy_endpoints(ServiceProxyConfig::Single(*e)).map_values(|e: crate::config::ProxyEndpoint| (name, opt_string(e.host), e.path@)));
            },
            Some(ServiceProxyConfig::Multiple(v)) => {
                let mut k: usize = 0;
                while k < v.len()
                    invariant
                        k <= v@.len(),
                        i < services@.len(),
                        name == services@[i as int].0@,
                        route_views(r@) == before + v@.take(k as int).map_values(|e: crate::config::ProxyEndpoint| (name, opt_string(e.host), e.path@)),
                    decreases v@.len() - k,
                {
                    let ghost prior = r@;
                    let e = (services[i].0.clone(), copy_opt(&v[k].host), v[k].path.clone());
                    r.push(e);
                    assert(v@.take(k + 1) =~= v@.take(k as int).push(v@[k as int]));
                    assert(route_views(r@) =~= route_views(prior).push((name, opt_string(v@[k as int].host), v@[k as int].path@)));
                    assert(route_views(r@) =~= before + v@.take(k + 1).map_values(|e: crate::config::ProxyEndpoint| (name, opt_string(e.host), e.path@)));
                    k = k + 1;
                }
                assert(v@.take(v@.len() as int) =~= v@);
            },
            None => {
                assert(route_views(r@) =~= before + Seq::<RouteUse>::empty());
            },
        }
        i = i + 1;
    }
    r
}

fn same_host(a: &Option<String>, b: &Option<String>) -> (r: bool)
    ensures
        r == (opt_string(*a) == opt_string(*b)),
{
    match (a, b) {
        (Some(x), Some(y)) => str_eq(x.as_str(), y.as_str()),
        (None, None) => true,
        _ => false,
    }
}

proof fn lemma_first_route_owner(routes: Seq<RouteUse>, n: int, r: RouteUse)
    requires
        0 <= n <= routes.len(),
    ensures
        match first_route_owner(routes, n, r) {
            Some(o) => exists|j: int| 0 <= j < n && routes[j].1 == r.1 && routes[j].2 == r.2 && routes[j].0 == o && forall|q: int| 0 <= q < j ==> !(routes[q].1 == r.1 && routes[q].2 == r.2),
            None => forall|j: int| 0 <= j < n ==> !(routes[j].1 == r.1 && routes[j].2 == r.2),
        },
    decreases n,
{
    if n > 0 {
        lemma_first_route_owner(routes, n - 1, r);
    }
}

fn add_route_errors(routes: &Vec<(String, Option<String>, String)>, result: &mut ValidationResult)
    ensures
        final(result).errors_view() == old(result).errors_view() + route_errors(route_views(routes@), routes@.len() as nat),
        final(result).warnings_view() == old(result).warnings_view(),
{
    let ghost rv = route_views(routes@);
    let mut n: usize = 0;
    while n < routes.len()
        invariant
            n <= routes@.len(),
            rv == route_views(routes@),
            result.errors_view() == old(result).errors_view() + route_errors(rv, n as nat),
            result.warnings_view() == old(result).warnings_view(),
        decreases routes@.len() - n,
    {
        let ghost cur = rv[n as int];
        proof {
            lemma_first_route_owner(rv, n as int, cur);
        }
        let mut j: usize = 0;
        let mut owner: Option<usize> = None;
        while j < n
            invariant
                j <= n < routes@.len(),
                rv == route_views(routes@),
                cur == rv[n as int],
                owner matches Some(x) ==> x < j && rv[x as int].1 == cur.1 && rv[x as int].2 == cur.2 && forall|q: int| 0 <= q < x ==> !(rv[q].1 == cur.1 && rv[q].2 == cur.2),
                owner is None ==> forall|q: int| 0 <= q < j ==> !(rv[q].1 == cur.1 && rv[q].2 == cur.2),
            decreases n - j,
        {
            if owner.is_none() && same_host(&routes[j].1, &routes[n].1) && str_eq(routes[j].2.as_str(), routes[n].2.as_str()) {
                owner = Some(j);
            }
            j = j + 1;
        }
        match owner {
            Some(x) => {
                proof {
                    let o = first_route_owner(rv, n as int, cur);
                    if o != Some(rv[x as int].0) {
                        if o is None {
                            assert(rv[x as int].1 == cur.1 && rv[x as int].2 == cur.2);
                        } else {
                            let w = choose|w: int| 0 <= w < n && rv[w].1 == cur.1 && rv[w].2 == cur.2 && rv[w].0 == o->0 && forall|q: int| 0 <= q < w ==> !(rv[q].1 == cur.1 && rv[q].2 == cur.2);
                            assert(w == x);
                        }
                    }
                }
                let mut path = "services.".to_owned();
                path.append(routes[n].0.as_str());
                path.append(".proxy");
                let mut m = "Route ".to_owned();
                m.append(debug_host(&routes[n].1).as_str());
                m.append("/");
                m.append(routes[n].2.as_str());
                m.append(" conflicts with service ");
                m.append(routes[x].0.as_str());
                result.add_error(path.as_str(), m.as_str());
            },
            None => {},
        }
        assert(result.errors_view() =~= old(result).errors_view() + route_errors(rv, (n + 1) as nat));
        n = n + 1;
    }
}

/// The views of exposed-name uses.
pub open spec fn expose_views(v: Seq<(String, String)>) -> Seq<(Seq<char>, Seq<char>)> {
    v.map_values(|u: (String, String)| (u.0@, u.1@))
}

fn collect_exposes(services: &Vec<(String, ServiceConfig)>) -> (r: Vec<(String, String)>)
    ensures
        expose_views(r@) == expose_uses(services@, services@.len() as nat),
{
    let mut r: Vec<(String, String)> = Vec::new();
    let mut i: usize = 0;
    while i < services.len()
        invariant
            i <= services@.len(),
            expose_views(r@) == expose_uses(services@, i as nat),
        decreases services@.len() - i,
    {
        let ghost before = expose_views(r@);
        match &services[i].1.expose {
            Some(e) => {
                r.push((services[i].0.clone(), e.name.clone()));
                assert(expose_views(r@) =~= before + seq![(services@[i as int].0@, e.name@)]);
            },
            None => {
                assert(expose_views(r@) =~= before + Seq::<(Seq<char>, Seq<char>)>::empty());
            },
        }
        i = i + 1;
    }
    r
}

proof fn lemma_first_expose_owner(uses: Seq<(Seq<char>, Seq<char>)>, n: int, x: Seq<char>)
    requires
        0 <= n <= uses.len(),
    ensures
        match first_expose_owner(uses, n, x) {
            Some(o) => exists|j: int| 0 <= j < n && uses[j].1 == x && uses[j].0 == o && forall|q: int| 0 <= q < j ==> uses[q].1 != x,
            None => forall|j: int| 0 <= j < n ==> uses[j].1 != x,
        },
    decreases n,
{
    if n > 0 {
        lemma_first_expose_owner(uses, n - 1, x);
    }
}

fn add_expose_errors(uses: &Vec<(String, String)>, result: &mut ValidationResult)
    ensures
        final(result).errors_view() == old(result).errors_view() + expose_errors(expose_views(uses@), uses@.len() as nat),
        final(result).warnings_view() == old(result).warnings_view(),
{
    let ghost uv = expose_views(uses@);
    let mut n: usize = 0;
    while n < uses.len()
        invariant
            n <= uses@.len(),
            uv == expose_views(uses@),
            result.errors_view() == old(result).errors_view() + expose_errors(uv, n as nat),
            result.warnings_view() == old(result).warnings_view(),
        decreases uses@.len() - n,
    {
        let ghost cur = uv[n as int];
        proof {
            lemma_first_expose_owner(uv, n as int, cur.1);
        }
        let mut j: usize = 0;
        let mut owner: Option<usize> = None;
        while j < n
            invariant
                j <= n < uses@.len(),
                uv == expose_views(uses@),
                cur == uv[n as int],
                owner matches Some(x) ==> x < j && uv[x as int].1 == cur.1 && forall|q: int| 0 <= q < x ==> uv[q].1 != cur.1,
                owner is None ==> forall|q: int| 0 <= q < j ==> uv[q].1 != cur.1,
            decreases n - j,
        {
            if owner.is_none() && str_eq(uses[j].1.as_str(), uses[n].1.as_str()) {
                owner = Some(j);
            }
            j = j + 1;
        }
        match owner {
            Some(x) => {
                proof {
                    let o = first_expose_owner(uv, n as int, cur.1);
                    if o != Some(uv[x as int].0) {
                        if o is None {
                            assert(uv[x as int].1 == cur.1);
                        } else {
                            let w = choose|w: int| 0 <= w < n && uv[w].1 == cur.1 && uv[w].0 == o->0 && forall|q: int| 0 <= q < w ==> uv[q].1 != cur.1;
                            assert(w == x);
                        }
                    }
                }
                let mut path = "services.".to_owned();
                path.append(uses[n].0.as_str());
                path.append(".expose.name");
                let mut m = "Expose name '".to_owned();
                m.append(uses[n].1.as_str());
                m.append("' conflicts with service ");
                m.append(uses[x].0.as_str());
                result.add_error(path.as_str(), m.as_str());
            },
            None => {},
        }
        assert(result.errors_view() =~= old(result).errors_view() + expose_errors(uv, (n + 1) as nat));
        n = n + 1;
    }
}

/// Whether `ds` are the dependencies of the services: same names, same dependencies.
pub open spec fn deps_of(ds: Seq<ServiceDeps>, svcs: Seq<(String, ServiceConfig)>) -> bool {
    &&& ds.len() == svcs.len()
    &&& forall|i: int| 0 <= i < ds.len() ==> (#[trigger] ds[i]).name@ == svcs[i].0@ && texts(ds[i].depends_on@) == texts(svcs[i].1.depends_on@)
}

/// The error about dependency cycles: none when the services can be ordered, else one
/// naming a service involved.
pub open spec fn cycle_errors(ds: Seq<ServiceDeps>, c: Seq<Issue>) -> bool {
    if orderable(ds, false) {
        c == Seq::<Issue>::empty()
    } else {
        exists|i: int| 0 <= i < ds.len() && c == seq![("services"@, circular_text() + involving_text() + (#[trigger] ds[i]).name@)]
    }
}

fn copy_strings(v: &Vec<String>) -> (r: Vec<String>)
    ensures
        r@.len() == v@.len(),
        forall|i: int| 0 <= i < v@.len() ==> #[trigger] r@[i]@ == v@[i]@,
{
    let mut r: Vec<String> = Vec::new();
    let mut i: usize = 0;
    while i < v.len()
        invariant
            i <= v@.len(),
            r@.len() == i,
            forall|j: int| 0 <= j < i ==> #[trigger] r@[j]@ == v@[j]@,
        decreases v@.len() - i,
    {
        r.push(v[i].clone());
        i = i + 1;
    }
    r
}

/// Checks a whole configuration (`services`: each service's name and configuration;
/// `ports`: the ports of each service's rollout, where they could be read). Errors come
/// in this order: the version; each service's name and configuration; a dependency
/// cycle; ports used by several services; routes taken twice; exposed names taken twice.
/// Warnings are those of the services.
pub fn validate_config(version: &str, services: &Vec<(String, ServiceConfig)>, ports: &Vec<Option<Vec<(String, u16)>>>) -> (r: ValidationResult)
    requires
        ports@.len() == services@.len(),
        service_names(services@).no_duplicates(),
    ensures
        exists|ds: Seq<ServiceDeps>, c: Seq<Issue>|
            deps_of(ds, services@) && cycle_errors(ds, c) && r.errors_view() == version_errors(version@)
                + services_errors(services@, service_names(services@), services@.len() as nat) + c + port_errors(
                port_groups(port_uses(services@, ports@, services@.len() as nat)),
            ) + route_errors(route_uses(services@, services@.len() as nat), route_uses(services@, services@.len() as nat).len())
                + expose_errors(expose_uses(services@, services@.len() as nat), expose_uses(services@, services@.len() as nat).len()),
        r.warnings_view() == services_warnings(services@, services@.len() as nat),
{
    let mut result = ValidationResult::new();
    proof {
        reveal_strlit("1");
    }
    if !str_eq(version, "1") {
        let mut m = "Unsupported version: ".to_owned();
        m.append(version);
        m.append(". Expected \"1\"");
        result.add_error("version", m.as_str());
    }
    assert(result.errors_view() =~= version_errors(version@));
    let mut names: Vec<String> = Vec::new();
    let mut i: usize = 0;
    while i < services.len()
        invariant
            i <= services@.len(),
            names@.len() == i,
            forall|j: int| 0 <= j < i ==> #[trigger] names@[j]@ == services@[j].0@,
        decreases services@.len() - i,
    {
        names.push(services[i].0.clone());
        i = i + 1;
    }
    assert(texts(names@) =~= service_names(services@));
    let ghost e0 = result.errors_view();
    let mut i: usize = 0;
    while i < services.len()
        invariant
            i <= services@.len(),
            texts(names@) == service_names(services@),
            result.errors_view() == e0 + services_errors(services@, service_names(services@), i as nat),
            result.warnings_view() == services_warnings(services@, i as nat),
        decreases services@.len() - i,
    {
        validate_service_name(services[i].0.as_str(), &mut result);
        validate_service(services[i].0.as_str(), &services[i].1, &names, &mut result);
        assert(result.errors_view() =~= e0 + services_errors(services@, service_names(services@), (i + 1) as nat));
        i = i + 1;
    }
    let mut deps: Vec<ServiceDeps> = Vec::new();
    let mut i: usize = 0;
    while i < services.len()
        invariant
            i <= services@.len(),
            deps@.len() == i,
            forall|j: int| 0 <= j < i ==> (#[trigger] deps@[j]).name@ == services@[j].0@ && texts(deps@[j].depends_on@) == texts(services@[j].1.depends_on@),
        decreases services@.len() - i,
    {
        let d = copy_strings(&services[i].1.depends_on);
        assert(texts(d@) =~= texts(services@[i as int].1.depends_on@));
        deps.push(ServiceDeps { name: services[i].0.clone(), depends_on: d });
        i = i + 1;
    }
    proof {
        assert forall|a: int, b: int| 0 <= a < deps@.len() && 0 <= b < deps@.len() && a != b implies #[trigger] deps@[a].name@ != #[trigger] deps@[b].name@ by {
            assert(service_names(services@)[a] == services@[a].0@);
            assert(service_names(services@)[b] == services@[b].0@);
        }
    }
    let ghost e1 = result.errors_view();
    let ghost c: Seq<Issue>;
    match check_circular_dependencies(&deps) {
        Ok(()) => {
            proof {
                c = Seq::empty();
            }
        },
        Err(e) => {
            let m = e.message();
            result.add_error("services", m.as_str());
            proof {
                c = seq![("services"@, m@)];
            }
        },
    }
    assert(result.errors_view() == e1 + c);
    assert(cycle_errors(deps@, c));
    let uses = collect_port_uses(services, ports);
    let groups = group_ports(&uses);
    add_port_errors(&groups, &mut result);
    let routes = collect_routes(services);
    add_route_errors(&routes, &mut result);
    let exposes = collect_exposes(services);
    add_expose_errors(&exposes, &mut result);
    proof {
        assert(deps_of(deps@, services@));
    }
    result
}

// ---------------------------------------------------------------------------
// Rollout ports
// ---------------------------------------------------------------------------

/// The ports section of a rollout, as read for its type: the built-in recreate and
/// blue-green rollouts are read into their configurations; for another type, the JSON
/// under `ports` in its section, if there is one.
#[derive(Debug)]
pub enum RolloutPortsSource {
    Recreate(RecreateRolloutConfig),
    BlueGreen(BlueGreenRolloutConfig),
    Other(Option<Json>),
}

/// The port a JSON number gives: its value where it is a whole number from 0 to
/// `u64::MAX` (written in digits), cut to its low 16 bits.
pub open spec fn number_port(text: Seq<char>) -> Option<u16> {
    match parse_unsigned(text, u64::MAX as nat) {
        Some(n) => Some((n % 65536) as u16),
        None => None,
    }
}

/// The ports of the members of a `ports` object whose values are such numbers.
pub open spec fn object_ports(es: Seq<(Seq<char>, JsonView)>) -> Seq<(Seq<char>, u16)>
    decreases es.len(),
{
    if es.len() == 0 {
        Seq::empty()
    } else {
        let rest = object_ports(es.drop_last());
        match es.last().1 {
            JsonView::Number(t) => match number_port(t) {
                Some(p) => rest.push((es.last().0, p)),
                None => rest,
            },
            _ => rest,
        }
    }
}

/// The ports of a rollout: the port of each recreate entry, the blue port of each
/// blue-green entry, or the numeric members of another type's `ports` object.
pub open spec fn rollout_ports(src: RolloutPortsSource) -> Seq<(Seq<char>, u16)> {
    match src {
        RolloutPortsSource::Recreate(c) => c.ports@.map_values(|e: (String, PortValue)| (e.0@, match e.1 {
            PortValue::Simple(p) => p,
            PortValue::BlueGreen(bg) => bg.blue,
        })),
        RolloutPortsSource::BlueGreen(c) => c.ports@.map_values(|e: (String, BlueGreenPort)| (e.0@, e.1.blue)),
        RolloutPortsSource::Other(Some(j)) => match json_view(j) {
            JsonView::Object(es) => object_ports(es),
            _ => Seq::empty(),
        },
        RolloutPortsSource::Other(None) => Seq::empty(),
    }
}

/// The views of named ports.
pub open spec fn port_views(v: Seq<(String, u16)>) -> Seq<(Seq<char>, u16)> {
    v.map_values(|p: (String, u16)| (p.0@, p.1))
}

/// The named ports of a rollout (see `rollout_ports`), in order.
pub fn get_rollout_ports(src: &RolloutPortsSource) -> (r: Vec<(String, u16)>)
    ensures
        port_views(r@) == rollout_ports(*src),
{
    let mut r: Vec<(String, u16)> = Vec::new();
    match src {
        RolloutPortsSource::Recreate(c) => {
            let mut i: usize = 0;
            while i < c.ports.len()
                invariant
                    i <= c.ports@.len(),
                    port_views(r@) == c.ports@.take(i as int).map_values(|e: (String, PortValue)| (e.0@, match e.1 {
                        PortValue::Simple(p) => p,
                        PortValue::BlueGreen(bg) => bg.blue,
                    })),
                decreases c.ports@.len() - i,
            {
                let ghost prior = r@;
                let e = (c.ports[i].0.clone(), c.ports[i].1.get_port());
                r.push(e);
                assert(c.ports@.take(i + 1) =~= c.ports@.take(i as int).push(c.ports@[i as int]));
                assert(port_views(r@) =~= port_views(prior).push((e.0@, e.1)));
                assert(port_views(r@) =~= c.ports@.take(i + 1).map_values(|e: (String, PortValue)| (e.0@, match e.1 {
                    PortValue::Simple(p) => p,
                    PortValue::BlueGreen(bg) => bg.blue,
                })));
                i = i + 1;
            }
            assert(c.ports@.take(c.ports@.len() as int) =~= c.ports@);
        },
        RolloutPortsSource::BlueGreen(c) => {
            let mut i: usize = 0;
            while i < c.ports.len()
                invariant
                    i <= c.ports@.len(),
                    port_views(r@) == c.ports@.take(i as int).map_values(|e: (String, BlueGreenPort)| (e.0@, e.1.blue)),
                decreases c.ports@.len() - i,
            {
                let ghost prior = r@;
                let e = (c.ports[i].0.clone(), c.ports[i].1.blue);
                r.push(e);
                assert(c.ports@.take(i + 1) =~= c.ports@.take(i as int).push(c.ports@[i as int]));
                assert(port_views(r@) =~= port_views(prior).push((e.0@, e.1)));
                assert(port_views(r@) =~= c.ports@.take(i + 1).map_values(|e: (String, BlueGreenPort)| (e.0@, e.1.blue)));
                i = i + 1;
            }
            assert(c.ports@.take(c.ports@.len() as int) =~= c.ports@);
        },
        RolloutPortsSource::Other(Some(Json::Object(v))) => {
            let mut i: usize = 0;
            while i < v.len()
                invariant
                    i <= v@.len(),
                    port_views(r@) == object_ports(entries_view(v@.take(i as int))),
                decreases v@.len() - i,
            {
                let ghost ev = entries_view(v@.take(i as int));
                let ghost y = (v@[i as int].0@, json_view(v@[i as int].1));
                assert(v@.take(i + 1).drop_last() =~= v@.take(i as int));
                assert(v@.take(i + 1).last() == v@[i as int]);
                assert(entries_view(v@.take(i + 1)) == ev.push(y));
                assert(ev.push(y).drop_last() =~= ev);
                assert(ev.push(y).last() == y);
                let ghost prior = r@;
                match &v[i].1 {
                    Json::Number(t) => {
                        assert(json_view(v@[i as int].1) == JsonView::Number(t@));
                        match parse_u64(&chars_of(t.as_str())) {
                            Some(n) => {
                                let e = (v[i].0.clone(), (n % 65536) as u16);
                                r.push(e);
                                assert(port_views(r@) =~= port_views(prior).push((e.0@, e.1)));
                            },
                            None => {},
                        }
                    },
                    _ => {
                        assert(!(json_view(v@[i as int].1) is Number));
                    },
                }
                assert(port_views(r@) =~= object_ports(entries_view(v@.take(i + 1))));
                i = i + 1;
            }
            assert(v@.take(v@.len() as int) =~= v@);
        },
        RolloutPortsSource::Other(_) => {},
    }
    proof {
        if port_views(r@) != rollout_ports(*src) {
            assert(port_views(r@) =~= rollout_ports(*src));
        }
    }
    r
}

} // verus!
