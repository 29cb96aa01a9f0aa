//! Services exposed across sources: a service publishes variables and ports under a
//! unique name, optionally guarded by a secret, and services of other sources use them.
//!
//! A secret is kept as its signature keyed with the exposed name.

use vstd::prelude::*;
use crate::assoc::{assoc_find, assoc_keys, assoc_view, lemma_assoc_has_key, lemma_assoc_push, lemma_assoc_remove, lemma_assoc_replace};
use crate::config::{ExposeConfig, UsesConfig};
use crate::crypto::{hmac_sign, signature, CryptoError};
use crate::interpolation::{runtime_interpolation, InterpolationError, InterpolationFault, RuntimeContext};
use crate::text::{chars_of, str_eq};

verus! {

/// A service exposed to other sources.
#[derive(Debug)]
pub struct ExposedService {
    pub name: String,
    pub source_name: String,
    pub service_name: String,
    /// The signature of the secret, keyed with the name (if a secret is required).
    pub secret_hash: Option<String>,
    /// The published variables, their port references resolved.
    pub vars: Vec<(String, String)>,
    pub ports: Vec<(String, u16)>,
    pub healthy: bool,
}

/// Why an exposure request fails.
#[derive(Debug)]
pub enum ExposureError {
    /// No service is exposed under the name.
    Unknown { name: String },
    /// The service needs a secret and none was given.
    SecretRequired { name: String },
    /// The secret does not match.
    InvalidSecret { name: String },
    /// The service is not healthy.
    NotHealthy { name: String },
    /// The name is exposed by another service.
    Conflict { name: String, source_name: String, service_name: String },
    /// A secret could not be signed.
    Crypto(CryptoError),
    /// A variable could not be resolved.
    Interpolation(InterpolationError),
}

impl ExposureError {
    /// The error message.
    pub fn message(&self) -> (r: String)
        ensures
            r@ == (match self {
                ExposureError::Unknown { name } => "Unknown exposed service: "@ + name@,
                ExposureError::SecretRequired { name } => "Exposed service '"@ + name@ + "' requires a secret"@,
                ExposureError::InvalidSecret { name } => "Invalid secret for exposed service '"@ + name@ + "'"@,
                ExposureError::NotHealthy { name } => "Exposed service '"@ + name@ + "' is not healthy"@,
                ExposureError::Conflict { name, source_name, service_name } => "Expose name '"@ + name@
                    + "' is already used by "@ + source_name@ + ":"@ + service_name@,
                ExposureError::Crypto(_) => "HMAC secret must not be empty"@,
                ExposureError::Interpolation(e) => crate::interpolation::fault_text(e@),
            }),
    {
        match self {
            ExposureError::Unknown { name } => {
                let mut s = "Unknown exposed service: ".to_owned();
                s.append(name.as_str());
                s
            },
            ExposureError::SecretRequired { name } => {
                let mut s = "Exposed service '".to_owned();
                s.append(name.as_str());
                s.append("' requires a secret");
                s
            },
            ExposureError::InvalidSecret { name } => {
                let mut s = "Invalid secret for exposed service '".to_owned();
                s.append(name.as_str());
                s.append("'");
                s
            },
            ExposureError::NotHealthy { name } => {
                let mut s = "Exposed service '".to_owned();
                s.append(name.as_str());
                s.append("' is not healthy");
                s
            },
            ExposureError::Conflict { name, source_name, service_name } => {
                let mut s = "Expose name '".to_owned();
                s.append(name.as_str());
                s.append("' is already used by ");
                s.append(source_name.as_str());
                s.append(":");
                s.append(service_name.as_str());
                s
            },
            ExposureError::Crypto(e) => e.message().to_owned(),
            ExposureError::Interpolation(e) => e.message(),
        }
    }
}

/// The variables with their values resolved against `ports`, in order, or the first
/// failure.
pub open spec fn resolved_vars(ports: Map<Seq<char>, u16>, vars: Seq<(String, String)>) -> Result<Seq<(Seq<char>, Seq<char>)>, InterpolationFault>
    decreases vars.len(),
{
    if vars.len() == 0 {
        Ok(Seq::empty())
    } else {
        match resolved_vars(ports, vars.drop_last()) {
            Err(e) => Err(e),
            Ok(done) => match runtime_interpolation(ports, Map::empty(), vars.last().1@) {
                Err(e) => Err(e),
                Ok(v) => Ok(done.push((vars.last().0@, v))),
            },
        }
    }
}

/// The pairs of a table of strings as plain text.
pub open spec fn pairs_view(v: Seq<(String, String)>) -> Seq<(Seq<char>, Seq<char>)> {
    v.map_values(|e: (String, String)| (e.0@, e.1@))
}

fn copy_ports(ports: &Vec<(String, u16)>) -> (r: Vec<(String, u16)>)
    ensures
        r@.len() == ports@.len(),
        forall|i: int| #![trigger r@[i]] 0 <= i < r@.len() ==> r@[i].0@ == ports@[i].0@ && r@[i].1 == ports@[i].1,
        assoc_view(r@) == assoc_view(ports@),
{
    let mut r: Vec<(String, u16)> = Vec::new();
    let mut i: usize = 0;
    while i < ports.len()
        invariant
            i <= ports@.len(),
            r@.len() == i,
            forall|j: int| #![trigger r@[j]] 0 <= j < i ==> r@[j].0@ == ports@[j].0@ && r@[j].1 == ports@[j].1,
        decreases ports.len() - i,
    {
        r.push((ports[i].0.clone(), ports[i].1));
        i = i + 1;
    }
    proof {
        lemma_same_table_view(r@, ports@);
    }
    r
}

proof fn lemma_same_table_view(a: Seq<(String, u16)>, b: Seq<(String, u16)>)
    requires
        a.len() == b.len(),
        forall|i: int| #![trigger a[i]] 0 <= i < a.len() ==> a[i].0@ == b[i].0@ && a[i].1 == b[i].1,
    ensures
        assoc_view(a) == assoc_view(b),
    decreases a.len(),
{
    if a.len() > 0 {
        assert(a.last() == a[a.len() - 1]);
        assert forall|i: int| #![trigger a.drop_last()[i]] 0 <= i < a.drop_last().len() implies a.drop_last()[i].0@ == b.drop_last()[i].0@
            && a.drop_last()[i].1 == b.drop_last()[i].1 by {
            assert(a.drop_last()[i] == a[i]);
            assert(b.drop_last()[i] == b[i]);
        }
        lemma_same_table_view(a.drop_last(), b.drop_last());
    }
}

/// The services exposed so far, by name.
#[derive(Debug)]
pub struct ExposureManager {
    pub exposed: Vec<(String, ExposedService)>,
}

/// Whether `secret` opens the service exposed as `name`: it is exposed, and needs no
/// secret or is given one whose signature keyed with the (non-empty) name is the recorded one.
pub open spec fn opens(m: Map<Seq<char>, ExposedService>, name: Seq<char>, secret: Option<Seq<char>>) -> bool {
    m.contains_key(name) && match (m[name].secret_hash, secret) {
        (None, _) => true,
        (Some(h), Some(s)) => name.len() > 0 && signature(s, name) == h@,
        (Some(_), None) => false,
    }
}

impl ExposureManager {
    /// The exposed services by name.
    pub open spec fn services(&self) -> Map<Seq<char>, ExposedService> {
        assoc_view(self.exposed@)
    }

    /// Each name is listed once.
    pub open spec fn wf(&self) -> bool {
        assoc_keys(self.exposed@).no_duplicates()
    }

    /// Nothing exposed.
    pub fn new() -> (r: Self)
        ensures
            r.wf(),
            r.services() == Map::<Seq<char>, ExposedService>::empty(),
    {
        let r = ExposureManager { exposed: Vec::new() };
        assert(r.services() =~= Map::<Seq<char>, ExposedService>::empty());
        r
    }

    /// Records `e` under its name, replacing what was there.
    fn put(&mut self, name: String, e: ExposedService)
        requires
            old(self).wf(),
        ensures
            final(self).wf(),
            final(self).services() == old(self).services().insert(name@, e),
    {
        match assoc_find(&self.exposed, &chars_of(name.as_str())) {
            Some(j) => {
                proof {
                    lemma_assoc_replace(self.exposed@, j as int, (name, e));
                }
                self.exposed.set(j, (name, e));
            },
            None => {
                let ghost p = (name, e);
                proof {
                    lemma_assoc_push(self.exposed@, p);
                    assert(assoc_keys(self.exposed@.push(p)) =~= assoc_keys(self.exposed@).push(p.0@));
                    assert(!assoc_keys(self.exposed@).contains(p.0@)) by {
                        if assoc_keys(self.exposed@).contains(p.0@) {
                            let k = choose|k: int| 0 <= k < assoc_keys(self.exposed@).len() && assoc_keys(self.exposed@)[k] == p.0@;
                            lemma_assoc_has_key(self.exposed@, k);
                        }
                    }
                }
                self.exposed.push((name, e));
            },
        }
    }

    /// Exposes the service `source_name:service_name` as `config` describes, its
    /// variables resolved against `ports`. Fails when the secret cannot be signed (an empty
    /// name), when a variable cannot be resolved, or when another service exposes the name;
    /// nothing changes then.
    pub fn register_exposed(&mut self, source_name: &str, service_name: &str, config: &ExposeConfig, ports: &Vec<(String, u16)>) -> (r: Result<(), ExposureError>)
        requires
            old(self).wf(),
        ensures
            final(self).wf(),
            config.secret is Some && config.name@.len() == 0 ==> (r matches Err(ExposureError::Crypto(c)) && c
                == CryptoError::EmptySecret),
            !(config.secret is Some && config.name@.len() == 0) ==> match resolved_vars(assoc_view(ports@), config.vars@) {
                Err(f) => r matches Err(ExposureError::Interpolation(e)) && e@ == f,
                Ok(vs) => if old(self).services().contains_key(config.name@) && (old(self).services()[config.name@].source_name@
                    != source_name@ || old(self).services()[config.name@].service_name@ != service_name@) {
                    r matches Err(ExposureError::Conflict { name, source_name: s, service_name: v }) && name@ == config.name@
                        && s@ == old(self).services()[config.name@].source_name@ && v@
                        == old(self).services()[config.name@].service_name@
                } else {
                    &&& r is Ok
                    &&& final(self).services().dom() == old(self).services().dom().insert(config.name@)
                    &&& forall|k: Seq<char>| k != config.name@ ==> #[trigger] final(self).services()[k] == old(self).services()[k]
                    &&& final(self).services()[config.name@].name@ == config.name@
                    &&& final(self).services()[config.name@].source_name@ == source_name@
                    &&& final(self).services()[config.name@].service_name@ == service_name@
                    &&& final(self).services()[config.name@].secret_hash == (match config.secret {
                        Some(s) => Some(final(self).services()[config.name@].secret_hash.unwrap()),
                        None => None::<String>,
                    })
                    &&& (config.secret matches Some(s) ==> final(self).services()[config.name@].secret_hash.unwrap()@
                        == signature(s@, config.name@))
                    &&& pairs_view(final(self).services()[config.name@].vars@) == vs
                    &&& assoc_view(final(self).services()[config.name@].ports@) == assoc_view(ports@)
                    &&& !final(self).services()[config.name@].healthy
                },
            },
            r is Err ==> final(self).services() == old(self).services(),
    {
        let secret_hash = match &config.secret {
            Some(s) => match hmac_sign(s.as_str(), config.name.as_str()) {
                Ok(h) => Some(h),
                Err(c) => {
                    return Err(ExposureError::Crypto(c));
                },
            },
            None => None,
        };
        let mut ctx = RuntimeContext::new();
        ctx.set_ports(copy_ports(ports));
        let mut vars: Vec<(String, String)> = Vec::new();
        let mut i: usize = 0;
        assert(config.vars@.take(0) =~= Seq::<(String, String)>::empty());
        assert(pairs_view(vars@) =~= Seq::<(Seq<char>, Seq<char>)>::empty());
        while i < config.vars.len()
            invariant
                i <= config.vars@.len(),
                self.wf(),
                self.exposed@ == old(self).exposed@,
                !(config.secret is Some && config.name@.len() == 0),
                ctx.port_map() == assoc_view(ports@),
                ctx.uses_map() == Map::<Seq<char>, Map<Seq<char>, u16>>::empty(),
                resolved_vars(assoc_view(ports@), config.vars@.take(i as int)) == Ok::<Seq<(Seq<char>, Seq<char>)>, InterpolationFault>(
                    pairs_view(vars@),
                ),
            decreases config.vars.len() - i,
        {
            assert(config.vars@.take(i + 1).drop_last() =~= config.vars@.take(i as int));
            match ctx.interpolate(config.vars[i].1.as_str()) {
                Ok(v) => {
                    vars.push((config.vars[i].0.clone(), v));
                    assert(pairs_view(vars@) =~= resolved_vars(assoc_view(ports@), config.vars@.take(i + 1))->Ok_0);
                },
                Err(e) => {
                    proof {
                        lemma_resolved_prefix_err(assoc_view(ports@), config.vars@, i as int + 1);
                        lemma_resolved_err_extends(assoc_view(ports@), config.vars@, i as int + 1);
                    }
                    return Err(ExposureError::Interpolation(e));
                },
            }
            i = i + 1;
        }
        assert(config.vars@.take(config.vars@.len() as int) =~= config.vars@);
        match assoc_find(&self.exposed, &chars_of(config.name.as_str())) {
            Some(j) => {
                let existing = &self.exposed[j].1;
                if !str_eq(existing.source_name.as_str(), source_name) || !str_eq(existing.service_name.as_str(), service_name) {
                    return Err(ExposureError::Conflict {
                        name: config.name.clone(),
                        source_name: existing.source_name.clone(),
                        service_name: existing.service_name.clone(),
                    });
                }
            },
            None => {},
        }
        let e = ExposedService {
            name: config.name.clone(),
            source_name: source_name.to_owned(),
            service_name: service_name.to_owned(),
            secret_hash,
            vars,
            ports: copy_ports(ports),
            healthy: false,
        };
        self.put(config.name.clone(), e);
        assert(self.services().dom() =~= old(self).services().dom().insert(config.name@));
        Ok(())
    }

    /// Stops exposing `expose_name`.
    pub fn unregister_exposed(&mut self, expose_name: &str)
        requires
            old(self).wf(),
        ensures
            final(self).wf(),
            final(self).services() == old(self).services().remove(expose_name@),
    {
        match assoc_find(&self.exposed, &chars_of(expose_name)) {
            Some(j) => {
                proof {
                    lemma_assoc_remove(self.exposed@, j as int);
                }
                self.exposed.remove(j);
                assert(self.services() =~= old(self).services().remove(expose_name@));
            },
            None => {
                assert(self.services() =~= old(self).services().remove(expose_name@));
            },
        }
    }

    /// Records whether the service exposed as `expose_name` is healthy.
    pub fn update_health(&mut self, expose_name: &str, healthy: bool)
        requires
            old(self).wf(),
        ensures
            final(self).wf(),
            old(self).services().contains_key(expose_name@) ==> {
                let o = old(self).services()[expose_name@];
                let n = final(self).services()[expose_name@];
                &&& final(self).services().dom() == old(self).services().dom()
                &&& forall|k: Seq<char>| k != expose_name@ ==> #[trigger] final(self).services()[k] == old(self).services()[k]
                &&& n.name == o.name && n.source_name == o.source_name && n.service_name == o.service_name
                &&& n.secret_hash == o.secret_hash && n.vars@ == o.vars@ && n.ports@ == o.ports@
                &&& n.healthy == healthy
            },
            !old(self).services().contains_key(expose_name@) ==> final(self).services() == old(self).services(),
    {
        match assoc_find(&self.exposed, &chars_of(expose_name)) {
            Some(j) => {
                let old_e = &self.exposed[j].1;
                let e = ExposedService {
                    name: old_e.name.clone(),
                    source_name: old_e.source_name.clone(),
                    service_name: old_e.service_name.clone(),
                    secret_hash: match &old_e.secret_hash {
                        Some(h) => Some(h.clone()),
                        None => None,
                    },
                    vars: copy_pairs(&old_e.vars),
                    ports: copy_ports_exact(&old_e.ports),
                    healthy,
                };
                let key = self.exposed[j].0.clone();
                proof {
                    lemma_assoc_replace(self.exposed@, j as int, (key, e));
                }
                self.exposed.set(j, (key, e));
                assert(self.services().dom() =~= old(self).services().dom());
            },
            None => {},
        }
    }

    /// Whether `secret` opens the service exposed as `expose_name`: always when it needs
    /// none; otherwise the secret must be given and its signature keyed with the name must
    /// be the recorded one.
    pub fn verify_secret(&self, expose_name: &str, secret: Option<&str>) -> (r: Result<bool, ExposureError>)
        ensures
            (r == Ok::<bool, ExposureError>(true)) <==> opens(self.services(), expose_name@, match secret {
                Some(s) => Some(s@),
                None => None,
            }),
            r is Ok ==> r == Ok::<bool, ExposureError>(true),
            !self.services().contains_key(expose_name@) ==> (r matches Err(ExposureError::Unknown { name }) && name@ == expose_name@),
            self.services().contains_key(expose_name@) ==> match (self.services()[expose_name@].secret_hash, secret) {
                (None, _) => r == Ok::<bool, ExposureError>(true),
                (Some(_), None) => r matches Err(ExposureError::SecretRequired { name }) && name@ == expose_name@,
                (Some(h), Some(s)) => if expose_name@.len() == 0 {
                    r matches Err(ExposureError::Crypto(c)) && c == CryptoError::EmptySecret
                } else if signature(s@, expose_name@) == h@ {
                    r == Ok::<bool, ExposureError>(true)
                } else {
                    r matches Err(ExposureError::InvalidSecret { name }) && name@ == expose_name@
                },
            },
    {
        match assoc_find(&self.exposed, &chars_of(expose_name)) {
            None => Err(ExposureError::Unknown { name: expose_name.to_owned() }),
            Some(j) => {
                let exposed = &self.exposed[j].1;
                match (&exposed.secret_hash, secret) {
                    (None, _) => Ok(true),
                    (Some(_), None) => Err(ExposureError::SecretRequired { name: expose_name.to_owned() }),
                    (Some(hash), Some(s)) => match hmac_sign(s, expose_name) {
                        Err(c) => Err(ExposureError::Crypto(c)),
                        Ok(sig) => if str_eq(sig.as_str(), hash.as_str()) {
                            Ok(true)
                        } else {
                            Err(ExposureError::InvalidSecret { name: expose_name.to_owned() })
                        },
                    },
                }
            },
        }
    }
}

proof fn lemma_resolved_prefix_err(ports: Map<Seq<char>, u16>, vars: Seq<(String, String)>, n: int)
    requires
        0 < n <= vars.len(),
        resolved_vars(ports, vars.take(n - 1)) is Ok,
        runtime_interpolation(ports, Map::empty(), vars[n - 1].1@) is Err,
    ensures
        resolved_vars(ports, vars.take(n)) == Err::<Seq<(Seq<char>, Seq<char>)>, InterpolationFault>(
            runtime_interpolation(ports, Map::empty(), vars[n - 1].1@)->Err_0,
        ),
{
    assert(vars.take(n).drop_last() =~= vars.take(n - 1));
}

proof fn lemma_resolved_err_extends(ports: Map<Seq<char>, u16>, vars: Seq<(String, String)>, n: int)
    requires
        0 <= n <= vars.len(),
        resolved_vars(ports, vars.take(n)) is Err,
    ensures
        resolved_vars(ports, vars) == resolved_vars(ports, vars.take(n)),
    decreases vars.len() - n,
{
    if n < vars.len() {
        assert(vars.take(n + 1).drop_last() =~= vars.take(n));
        lemma_resolved_err_extends(ports, vars, n + 1);
    } else {
        assert(vars.take(n) =~= vars);
    }
}

fn copy_pairs(v: &Vec<(String, String)>) -> (r: Vec<(String, String)>)
    ensures
        r@ == v@,
{
    let mut r: Vec<(String, String)> = Vec::new();
    let mut i: usize = 0;
    while i < v.len()
        invariant
            i <= v@.len(),
            r@ == v@.take(i as int),
        decreases v.len() - i,
    {
        r.push((v[i].0.clone(), v[i].1.clone()));
        assert(r@ =~= v@.take(i + 1));
        i = i + 1;
    }
    assert(v@.take(v@.len() as int) =~= v@);
    r
}

fn copy_ports_exact(v: &Vec<(String, u16)>) -> (r: Vec<(String, u16)>)
    ensures
        r@ == v@,
{
    let mut r: Vec<(String, u16)> = Vec::new();
    let mut i: usize = 0;
    while i < v.len()
        invariant
            i <= v@.len(),
            r@ == v@.take(i as int),
        decreases v.len() - i,
    {
        r.push((v[i].0.clone(), v[i].1));
        assert(r@ =~= v@.take(i + 1));
        i = i + 1;
    }
    assert(v@.take(v@.len() as int) =~= v@);
    r
}

/// A secret registered with an exposed service opens it: after exposing a service with
/// a secret under a non-empty name, asking with the same secret succeeds, since both sides
/// sign it keyed with the same name.
pub proof fn lemma_registered_secret_opens(after: Map<Seq<char>, ExposedService>, name: Seq<char>, secret: Seq<char>)
    requires
        name.len() > 0,
        after.contains_key(name),
        after[name].secret_hash is Some,
        after[name].secret_hash.unwrap()@ == signature(secret, name),
    ensures
        opens(after, name, Some(secret)),
{
}

/// Why one dependency on an exposed service cannot be resolved.
#[derive(Debug)]
pub enum UsesFault {
    Unknown,
    SecretRequired,
    EmptyName,
    InvalidSecret,
    NotHealthy,
}

/// What is wrong with the dependency `u`, if anything: the name must be exposed, the secret
/// given and matching when one is required, and the service healthy.
pub open spec fn uses_fault(m: Map<Seq<char>, ExposedService>, u: UsesConfig) -> Option<UsesFault> {
    if !m.contains_key(u.name@) {
        Some(UsesFault::Unknown)
    } else if m[u.name@].secret_hash is Some && u.secret is None {
        Some(UsesFault::SecretRequired)
    } else if m[u.name@].secret_hash is Some && u.name@.len() == 0 {
        Some(UsesFault::EmptyName)
    } else if m[u.name@].secret_hash is Some && signature(u.secret.unwrap()@, u.name@) != m[u.name@].secret_hash.unwrap()@ {
        Some(UsesFault::InvalidSecret)
    } else if !m[u.name@].healthy {
        Some(UsesFault::NotHealthy)
    } else {
        None
    }
}

/// The name a variable is known by to the user: its remapped name, or its own.
pub open spec fn remapped(remap: Seq<(String, String)>, key: Seq<char>) -> Seq<char> {
    if assoc_view(remap).contains_key(key) { assoc_view(remap)[key]@ } else { key }
}

/// The variables a dependency receives from the first `n` variables of the exposed service.
pub open spec fn received_vars(vars: Seq<(String, String)>, remap: Seq<(String, String)>, n: nat) -> Seq<(Seq<char>, Seq<char>)>
    decreases n,
{
    if n == 0 || n > vars.len() {
        Seq::empty()
    } else {
        received_vars(vars, remap, (n - 1) as nat).push((remapped(remap, vars[n - 1].0@), vars[n - 1].1@))
    }
}

/// The variables and port tables the first `n` dependencies receive, or the first fault and
/// where it is.
pub open spec fn resolved_uses(m: Map<Seq<char>, ExposedService>, uses: Seq<UsesConfig>, n: nat) -> Result<(Seq<(Seq<char>, Seq<char>)>, Seq<(Seq<char>, Seq<(String, u16)>)>), (UsesFault, int)>
    decreases n,
{
    if n == 0 || n > uses.len() {
        Ok((Seq::empty(), Seq::empty()))
    } else {
        match resolved_uses(m, uses, (n - 1) as nat) {
            Err(f) => Err(f),
            Ok((env, ports)) => {
                let u = uses[n - 1];
                match uses_fault(m, u) {
                    Some(f) => Err((f, n - 1)),
                    None => {
                        let e = m[u.name@];
                        Ok((
                            env + received_vars(e.vars@, u.vars@, e.vars@.len()),
                            ports.push((match u.alias { Some(a) => a@, None => u.name@ }, e.ports@)),
                        ))
                    },
                }
            },
        }
    }
}

impl ExposureManager {
    /// The variables and port tables of the exposed services `uses_configs` depend on, in
    /// order: each variable under its remapped name, each port table under the dependency's
    /// alias (or name). Fails at the first dependency that names no exposed service, lacks
    /// or mismatches a required secret, or names an unhealthy service.
    pub fn resolve_uses(&self, uses_configs: &[UsesConfig]) -> (r: Result<(Vec<(String, String)>, Vec<(String, Vec<(String, u16)>)>), ExposureError>)
        ensures
            match resolved_uses(self.services(), uses_configs@, uses_configs@.len()) {
                Ok((env, ports)) => r matches Ok((e, p)) && pairs_view(e@) == env && p@.len() == ports.len()
                    && forall|i: int| #![trigger p@[i]] 0 <= i < p@.len() ==> p@[i].0@ == ports[i].0 && p@[i].1@ == ports[i].1,
                Err((f, i)) => 0 <= i < uses_configs@.len() && match f {
                    UsesFault::Unknown => r matches Err(ExposureError::Unknown { name }) && name@ == uses_configs@[i].name@,
                    UsesFault::SecretRequired => r matches Err(ExposureError::SecretRequired { name }) && name@
                        == uses_configs@[i].name@,
                    UsesFault::EmptyName => r matches Err(ExposureError::Crypto(c)) && c == CryptoError::EmptySecret,
                    UsesFault::InvalidSecret => r matches Err(ExposureError::InvalidSecret { name }) && name@
                        == uses_configs@[i].name@,
                    UsesFault::NotHealthy => r matches Err(ExposureError::NotHealthy { name }) && name@
                        == uses_configs@[i].name@,
                },
            },
    {
        let ghost m = self.services();
        let mut env: Vec<(String, String)> = Vec::new();
        let mut ports: Vec<(String, Vec<(String, u16)>)> = Vec::new();
        let mut i: usize = 0;
        assert(pairs_view(env@) =~= Seq::<(Seq<char>, Seq<char>)>::empty());
        while i < uses_configs.len()
            invariant
                i <= uses_configs@.len(),
                m == self.services(),
                resolved_uses(m, uses_configs@, i as nat) matches Ok((ev, pv)) && pairs_view(env@) == ev && ports@.len()
                    == pv.len() && forall|k: int| #![trigger ports@[k]] 0 <= k < ports@.len() ==> ports@[k].0@ == pv[k].0
                    && ports@[k].1@ == pv[k].1,
            decreases uses_configs.len() - i,
        {
            let u = &uses_configs[i];
            let ghost prev = resolved_uses(m, uses_configs@, i as nat);
            let j = match assoc_find(&self.exposed, &chars_of(u.name.as_str())) {
                Some(j) => j,
                None => {
                    proof { lemma_uses_err_extends(m, uses_configs@, i as nat + 1); }
                    return Err(ExposureError::Unknown { name: u.name.clone() });
                },
            };
            let exposed = &self.exposed[j].1;
            match &exposed.secret_hash {
                Some(hash) => {
                    match &u.secret {
                        None => {
                            proof { lemma_uses_err_extends(m, uses_configs@, i as nat + 1); }
                            return Err(ExposureError::SecretRequired { name: u.name.clone() });
                        },
                        Some(sec) => {
                            match hmac_sign(sec.as_str(), u.name.as_str()) {
                                Err(c) => {
                                    proof { lemma_uses_err_extends(m, uses_configs@, i as nat + 1); }
                                    return Err(ExposureError::Crypto(c));
                                },
                                Ok(sig) => {
                                    if !str_eq(sig.as_str(), hash.as_str()) {
                                        proof { lemma_uses_err_extends(m, uses_configs@, i as nat + 1); }
                                        return Err(ExposureError::InvalidSecret { name: u.name.clone() });
                                    }
                                },
                            }
                        },
                    }
                },
                None => {},
            }
            if !exposed.healthy {
                proof { lemma_uses_err_extends(m, uses_configs@, i as nat + 1); }
                return Err(ExposureError::NotHealthy { name: u.name.clone() });
            }
            let ghost env0 = pairs_view(env@);
            let mut k: usize = 0;
            while k < exposed.vars.len()
                invariant
                    k <= exposed.vars@.len(),
                    pairs_view(env@) == env0 + received_vars(exposed.vars@, u.vars@, k as nat),
                decreases exposed.vars.len() - k,
            {
                let orig = &exposed.vars[k].0;
                let key = match assoc_find(&u.vars, &chars_of(orig.as_str())) {
                    Some(q) => u.vars[q].1.clone(),
                    None => orig.clone(),
                };
                let ghost e0 = env@;
                env.push((key, exposed.vars[k].1.clone()));
                assert(pairs_view(env@) =~= pairs_view(e0).push((key@, exposed.vars@[k as int].1@)));
                assert(pairs_view(env@) =~= env0 + received_vars(exposed.vars@, u.vars@, (k + 1) as nat));
                k = k + 1;
            }
            let alias = match &u.alias {
                Some(a) => a.clone(),
                None => u.name.clone(),
            };
            let ghost p0 = ports@;
            ports.push((alias, copy_ports_exact(&exposed.ports)));
            proof {
                assert(m[u.name@] == exposed);
                let pv = resolved_uses(m, uses_configs@, (i + 1) as nat)->Ok_0.1;
                assert(pv == prev->Ok_0.1.push((match u.alias { Some(a) => a@, None => u.name@ }, exposed.ports@)));
                assert forall|q: int| #![trigger ports@[q]] 0 <= q < ports@.len() implies ports@[q].0@ == pv[q].0 && ports@[q].1@ == pv[q].1 by {
                    if q < p0.len() {
                        assert(ports@[q] == p0[q]);
                    }
                }
            }
            i = i + 1;
        }
        Ok((env, ports))
    }
}

proof fn lemma_uses_err_extends(m: Map<Seq<char>, ExposedService>, uses: Seq<UsesConfig>, n: nat)
    requires
        0 < n <= uses.len(),
        resolved_uses(m, uses, (n - 1) as nat) is Ok,
        uses_fault(m, uses[n - 1]) is Some,
    ensures
        resolved_uses(m, uses, uses.len()) == Err::<(Seq<(Seq<char>, Seq<char>)>, Seq<(Seq<char>, Seq<(String, u16)>)>), (UsesFault, int)>(
            (uses_fault(m, uses[n - 1])->Some_0, n - 1),
        ),
    decreases uses.len() - n,
{
    lemma_uses_err_stays(m, uses, n, uses.len());
}

proof fn lemma_uses_err_stays(m: Map<Seq<char>, ExposedService>, uses: Seq<UsesConfig>, n: nat, k: nat)
    requires
        0 < n <= k <= uses.len(),
        resolved_uses(m, uses, (n - 1) as nat) is Ok,
        uses_fault(m, uses[n - 1]) is Some,
    ensures
        resolved_uses(m, uses, k) == resolved_uses(m, uses, n),
    decreases k - n,
{
    if k > n {
        lemma_uses_err_stays(m, uses, n, (k - 1) as nat);
    }
}

fn copy_exposed(e: &ExposedService) -> (r: ExposedService)
    ensures
        r.name == e.name && r.source_name == e.source_name && r.service_name == e.service_name,
        r.secret_hash == e.secret_hash && r.vars@ == e.vars@ && r.ports@ == e.ports@ && r.healthy == e.healthy,
{
    ExposedService {
        name: e.name.clone(),
        source_name: e.source_name.clone(),
        service_name: e.service_name.clone(),
        secret_hash: match &e.secret_hash {
            Some(h) => Some(h.clone()),
            None => None,
        },
        vars: copy_pairs(&e.vars),
        ports: copy_ports_exact(&e.ports),
        healthy: e.healthy,
    }
}

/// What waiting for an exposed service to become healthy does next.
#[derive(Debug)]
pub enum WaitStep {
    /// It is healthy.
    Ready,
    /// Waiting fails.
    Fail(String),
    /// Look again later.
    Wait,
}

impl ExposureManager {
    /// A copy of the service exposed as `name`, if any.
    pub fn get_exposed(&self, name: &str) -> (r: Option<ExposedService>)
        ensures
            !self.services().contains_key(name@) ==> r is None,
            self.services().contains_key(name@) ==> (r matches Some(e) && {
                let o = self.services()[name@];
                e.name == o.name && e.source_name == o.source_name && e.service_name == o.service_name
                    && e.secret_hash == o.secret_hash && e.vars@ == o.vars@ && e.ports@ == o.ports@ && e.healthy
                    == o.healthy
            }),
    {
        match assoc_find(&self.exposed, &chars_of(name)) {
            Some(j) => Some(copy_exposed(&self.exposed[j].1)),
            None => None,
        }
    }

    /// Copies of all exposed services, in the order they were first exposed.
    pub fn list_exposed(&self) -> (r: Vec<ExposedService>)
        ensures
            r@.len() == self.exposed@.len(),
            forall|i: int| #![trigger r@[i]] 0 <= i < r@.len() ==> r@[i].name == self.exposed@[i].1.name && r@[i].source_name
                == self.exposed@[i].1.source_name && r@[i].service_name == self.exposed@[i].1.service_name
                && r@[i].secret_hash == self.exposed@[i].1.secret_hash && r@[i].vars@ == self.exposed@[i].1.vars@
                && r@[i].ports@ == self.exposed@[i].1.ports@ && r@[i].healthy == self.exposed@[i].1.healthy,
    {
        let mut r: Vec<ExposedService> = Vec::new();
        let mut i: usize = 0;
        while i < self.exposed.len()
            invariant
                i <= self.exposed@.len(),
                r@.len() == i,
                forall|k: int| #![trigger r@[k]] 0 <= k < i ==> r@[k].name == self.exposed@[k].1.name && r@[k].source_name
                    == self.exposed@[k].1.source_name && r@[k].service_name == self.exposed@[k].1.service_name
                    && r@[k].secret_hash == self.exposed@[k].1.secret_hash && r@[k].vars@ == self.exposed@[k].1.vars@
                    && r@[k].ports@ == self.exposed@[k].1.ports@ && r@[k].healthy == self.exposed@[k].1.healthy,
            decreases self.exposed.len() - i,
        {
            r.push(copy_exposed(&self.exposed[i].1));
            i = i + 1;
        }
        r
    }

    /// The services using an exposed service; they are not tracked, so there are none.
    pub fn get_consumers(&self, _expose_name: &str) -> (r: Vec<String>)
        ensures
            r@.len() == 0,
    {
        Vec::new()
    }

    /// One round of waiting for `expose_name` to become healthy: done when it is healthy,
    /// failed when it is unknown or (having looked) the time is up, else wait.
    pub fn wait_step(&self, expose_name: &str, timed_out: bool) -> (r: WaitStep)
        ensures
            !self.services().contains_key(expose_name@) ==> (r matches WaitStep::Fail(m) && m@ == "Unknown exposed service: "@
                + expose_name@),
            self.services().contains_key(expose_name@) && self.services()[expose_name@].healthy ==> r is Ready,
            self.services().contains_key(expose_name@) && !self.services()[expose_name@].healthy && timed_out ==> (r matches WaitStep::Fail(
                m,
            ) && m@ == "Timeout waiting for exposed service '"@ + expose_name@ + "' to become healthy"@),
            self.services().contains_key(expose_name@) && !self.services()[expose_name@].healthy && !timed_out ==> r is Wait,
    {
        match assoc_find(&self.exposed, &chars_of(expose_name)) {
            Some(j) => {
                if self.exposed[j].1.healthy {
                    WaitStep::Ready
                } else if timed_out {
                    let mut m = "Timeout waiting for exposed service '".to_owned();
                    m.append(expose_name);
                    m.append("' to become healthy");
                    WaitStep::Fail(m)
                } else {
                    WaitStep::Wait
                }
            },
            None => {
                let mut m = "Unknown exposed service: ".to_owned();
                m.append(expose_name);
                WaitStep::Fail(m)
            },
        }
    }
}

} // verus!
