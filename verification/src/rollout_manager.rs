//! The rollout state of each service: which ports an instance uses, and the blue-green
//! switch that moves the proxy to a new instance.

use vstd::prelude::*;
use crate::assoc::{assoc_find, assoc_keys, assoc_view, lemma_assoc_has_key, lemma_assoc_push, lemma_assoc_replace};
use crate::config::{BlueGreenPort, BlueGreenRolloutConfig, RecreateRolloutConfig};
use crate::config_validation::{get_rollout_ports, port_views, rollout_ports, RolloutPortsSource};
use crate::duration::Duration;
use crate::rollout::{colored_ports, BlueGreenColor, BlueGreenState, OnFailureAction};
use crate::service_proxy::{repointed, ServiceProxyState};
use crate::text::chars_of;

verus! {

/// A service's rollout, as read for its type.
#[derive(Debug)]
pub enum RolloutInput {
    Recreate(RecreateRolloutConfig),
    BlueGreen(BlueGreenRolloutConfig),
    /// A type that is neither built-in rollout, by name.
    Unknown(String),
}

/// The blue ports of a blue-green configuration.
pub open spec fn blue_ports(c: BlueGreenRolloutConfig) -> Seq<(Seq<char>, u16)> {
    c.ports@.map_values(|e: (String, BlueGreenPort)| (e.0@, e.1.blue))
}

/// The ports of a colour, as plain values.
pub open spec fn state_ports(s: BlueGreenState, c: BlueGreenColor) -> Seq<(Seq<char>, u16)> {
    s.ports@.map_values(|e: (String, BlueGreenPort)| (e.0@, crate::rollout::port_of(c, e.1)))
}

/// Two states with the same colour, ports, durations and failure action.
pub open spec fn same_state(a: BlueGreenState, b: BlueGreenState) -> bool {
    &&& a.active == b.active
    &&& a.ports@ == b.ports@
    &&& a.healthy_duration == b.healthy_duration
    &&& a.timeout == b.timeout
    &&& a.on_failure == b.on_failure
}

fn copy_state(s: &BlueGreenState) -> (r: BlueGreenState)
    ensures
        r.active == s.active,
        r.ports@ == s.ports@,
        r.healthy_duration == s.healthy_duration,
        r.timeout == s.timeout,
        r.on_failure == s.on_failure,
{
    let mut ports: Vec<(String, BlueGreenPort)> = Vec::new();
    let mut i: usize = 0;
    while i < s.ports.len()
        invariant
            i <= s.ports@.len(),
            ports@ == s.ports@.take(i as int),
        decreases s.ports@.len() - i,
    {
        let name = s.ports[i].0.clone();
        ports.push((name, s.ports[i].1));
        assert(ports@ =~= s.ports@.take(i + 1));
        i = i + 1;
    }
    assert(s.ports@.take(s.ports@.len() as int) =~= s.ports@);
    BlueGreenState { active: s.active, ports, healthy_duration: s.healthy_duration, timeout: s.timeout, on_failure: s.on_failure }
}

/// The rollout state of each blue-green service.
#[derive(Debug)]
pub struct RolloutManager {
    pub blue_green_states: Vec<(String, BlueGreenState)>,
}

/// The message for a service without blue-green state.
pub open spec fn no_state_text(name: Seq<char>) -> Seq<char> {
    "No blue-green state for service: "@ + name
}

/// The message for a rollout type that is not built in.
pub open spec fn unknown_type_text(t: Seq<char>) -> Seq<char> {
    "Unknown rollout type: "@ + t
}

fn no_state(name: &str) -> (r: String)
    ensures
        r@ == no_state_text(name@),
{
    let mut m = "No blue-green state for service: ".to_owned();
    m.append(name);
    m
}

fn unknown_type(t: &str) -> (r: String)
    ensures
        r@ == unknown_type_text(t@),
{
    let mut m = "Unknown rollout type: ".to_owned();
    m.append(t);
    m
}

fn blue_of(c: &BlueGreenRolloutConfig) -> (r: Vec<(String, u16)>)
    ensures
        port_views(r@) == blue_ports(*c),
{
    let mut r: Vec<(String, u16)> = Vec::new();
    let mut i: usize = 0;
    while i < c.ports.len()
        invariant
            i <= c.ports@.len(),
            port_views(r@) == c.ports@.take(i as int).map_values(|e: (String, BlueGreenPort)| (e.0@, e.1.blue)),
        decreases c.ports@.len() - i,
    {
        let ghost prior = r@;
        let e = (c.ports[i].0.clone(), c.ports[i].1.blue);
        r.push(e);
        assert(c.ports@.take(i + 1) =~= c.ports@.take(i as int).push(c.ports@[i as int]));
        assert(port_views(r@) =~= port_views(prior).push((e.0@, e.1)));
        assert(port_views(r@) =~= c.ports@.take(i + 1).map_values(|e: (String, BlueGreenPort)| (e.0@, e.1.blue)));
        i = i + 1;
    }
    assert(c.ports@.take(c.ports@.len() as int) =~= c.ports@);
    r
}

proof fn lemma_colored_views(r: Seq<(String, u16)>, s: BlueGreenState, c: BlueGreenColor)
    requires
        colored_ports(r, s.ports@, c),
    ensures
        port_views(r) == state_ports(s, c),
{
    assert(port_views(r) =~= state_ports(s, c));
}

impl RolloutManager {
    /// Each service has one state.
    pub open spec fn wf(&self) -> bool {
        assoc_keys(self.blue_green_states@).no_duplicates()
    }

    /// The blue-green state of each service.
    pub open spec fn states(&self) -> Map<Seq<char>, BlueGreenState> {
        assoc_view(self.blue_green_states@)
    }

    /// No blue-green state.
    pub fn new() -> (r: Self)
        ensures
            r.wf(),
            r.states() == Map::<Seq<char>, BlueGreenState>::empty(),
    {
        let r = RolloutManager { blue_green_states: Vec::new() };
        assert(assoc_keys(r.blue_green_states@) =~= Seq::<Seq<char>>::empty());
        r
    }

    /// The ports an instance of `service_name` serves on: the configured ports of a
    /// recreate rollout; for blue-green, the active ports, or the blue ones before the
    /// first deployment; an error for another type.
    pub fn get_ports(&self, service_name: &str, rollout: &RolloutInput) -> (r: Result<Vec<(String, u16)>, String>)
        ensures
            match rollout {
                RolloutInput::Recreate(c) => r matches Ok(p) && port_views(p@) == rollout_ports(RolloutPortsSource::Recreate(*c)),
                RolloutInput::BlueGreen(c) => r matches Ok(p) && port_views(p@) == (if self.states().contains_key(service_name@) {
                    state_ports(self.states()[service_name@], self.states()[service_name@].active)
                } else {
                    blue_ports(*c)
                }),
                RolloutInput::Unknown(t) => r matches Err(m) && m@ == unknown_type_text(t@),
            },
    {
        match rollout {
            RolloutInput::Recreate(c) => {
                let src = RolloutPortsSource::Recreate(copy_recreate(c));
                Ok(get_rollout_ports(&src))
            },
            RolloutInput::BlueGreen(c) => match assoc_find(&self.blue_green_states, &chars_of(service_name)) {
                Some(j) => {
                    let p = self.blue_green_states[j].1.active_ports();
                    proof {
                        lemma_colored_views(p@, self.blue_green_states@[j as int].1, self.blue_green_states@[j as int].1.active);
                    }
                    Ok(p)
                },
                None => Ok(blue_of(c)),
            },
            RolloutInput::Unknown(t) => Err(unknown_type(t.as_str())),
        }
    }

    /// Records the blue-green state of `service_name` for its first deployment (blue
    /// active; durations as read, see `BlueGreenState::from_config`) and gives it back.
    pub fn init_blue_green(&mut self, service_name: &str, config: &BlueGreenRolloutConfig, healthy_duration: Option<Duration>, timeout: Option<Duration>) -> (r: BlueGreenState)
        requires
            old(self).wf(),
        ensures
            final(self).wf(),
            r.active == BlueGreenColor::Blue,
            assoc_view(r.ports@) == assoc_view(config.ports@),
            final(self).states().dom() == old(self).states().dom().insert(service_name@),
            same_state(final(self).states()[service_name@], r),
            forall|k: Seq<char>| k != service_name@ && #[trigger] old(self).states().contains_key(k) ==> final(self).states()[k] == old(self).states()[k],
    {
        let state = BlueGreenState::from_config(config, healthy_duration, timeout);
        let copy = copy_state(&state);
        let e = (service_name.to_owned(), state);
        match assoc_find(&self.blue_green_states, &chars_of(service_name)) {
            Some(j) => {
                proof {
                    lemma_assoc_replace(self.blue_green_states@, j as int, e);
                }
                self.blue_green_states.set(j, e);
            },
            None => {
                proof {
                    lemma_assoc_push(self.blue_green_states@, e);
                    assert forall|i: int| 0 <= i < self.blue_green_states@.len() implies #[trigger] assoc_keys(self.blue_green_states@)[i] != service_name@ by {
                        lemma_assoc_has_key(self.blue_green_states@, i);
                    }
                    assert(assoc_keys(self.blue_green_states@.push(e)) =~= assoc_keys(self.blue_green_states@).push(service_name@));
                }
                self.blue_green_states.push(e);
            },
        }
        assert(self.states().dom() =~= old(self).states().dom().insert(service_name@));
        copy
    }

    /// The ports a new instance of `service_name` starts on: for blue-green with a
    /// state, the inactive ports; otherwise as `get_ports`.
    pub fn get_deployment_ports(&self, service_name: &str, rollout: &RolloutInput) -> (r: Result<Vec<(String, u16)>, String>)
        ensures
            match rollout {
                RolloutInput::Recreate(c) => r matches Ok(p) && port_views(p@) == rollout_ports(RolloutPortsSource::Recreate(*c)),
                RolloutInput::BlueGreen(c) => r matches Ok(p) && port_views(p@) == (if self.states().contains_key(service_name@) {
                    state_ports(self.states()[service_name@], self.states()[service_name@].active.other())
                } else {
                    blue_ports(*c)
                }),
                RolloutInput::Unknown(t) => r matches Err(m) && m@ == unknown_type_text(t@),
            },
    {
        match rollout {
            RolloutInput::BlueGreen(_) => match assoc_find(&self.blue_green_states, &chars_of(service_name)) {
                Some(j) => {
                    let p = self.blue_green_states[j].1.inactive_ports();
                    proof {
                        lemma_colored_views(p@, self.blue_green_states@[j as int].1, self.blue_green_states@[j as int].1.active.other());
                    }
                    Ok(p)
                },
                None => self.get_ports(service_name, rollout),
            },
            _ => self.get_ports(service_name, rollout),
        }
    }

    /// Makes the inactive colour of `service_name` active, pointing the proxy's routes
    /// of the service at the new `http` port when there is one; an error without state.
    pub fn switch_blue_green(&mut self, service_name: &str, proxy: &mut ServiceProxyState) -> (r: Result<(), String>)
        requires
            old(self).wf(),
            old(proxy).wf(),
        ensures
            final(self).wf(),
            final(proxy).wf(),
            match r {
                Ok(()) => {
                    let before = old(self).states()[service_name@];
                    &&& old(self).states().contains_key(service_name@)
                    &&& final(self).states().dom() == old(self).states().dom()
                    &&& final(self).states()[service_name@].active == before.active.other()
                    &&& final(self).states()[service_name@].ports@ == before.ports@
                    &&& forall|k: Seq<char>| k != service_name@ && #[trigger] old(self).states().contains_key(k) ==> final(self).states()[k] == old(self).states()[k]
                    &&& (before.inactive_port_of("http"@) is None ==> final(proxy).groups() == old(proxy).groups())
                    &&& (before.inactive_port_of("http"@) matches Some(p) ==> repointed(*old(proxy), *final(proxy), service_name@, p))
                },
                Err(m) => !old(self).states().contains_key(service_name@) && m@ == no_state_text(service_name@)
                    && final(self).states() == old(self).states() && final(proxy).groups() == old(proxy).groups(),
            },
    {
        proof {
            reveal_strlit("http");
        }
        match assoc_find(&self.blue_green_states, &chars_of(service_name)) {
            Some(j) => {
                let mut state = copy_state(&self.blue_green_states[j].1);
                match state.inactive_port("http") {
                    Some(http_port) => {
                        proxy.update_service_port(service_name, http_port);
                    },
                    None => {},
                }
                state.switch();
                let e = (self.blue_green_states[j].0.clone(), state);
                proof {
                    lemma_assoc_replace(self.blue_green_states@, j as int, e);
                }
                self.blue_green_states.set(j, e);
                assert(self.states().dom() =~= old(self).states().dom());
                Ok(())
            },
            None => Err(no_state(service_name)),
        }
    }

    /// A copy of the blue-green state of `service_name`, if there is one.
    pub fn get_blue_green_state(&self, service_name: &str) -> (r: Option<BlueGreenState>)
        ensures
            match r {
                Some(s) => self.states().contains_key(service_name@) && s.active == self.states()[service_name@].active
                    && s.ports@ == self.states()[service_name@].ports@ && s.on_failure == self.states()[service_name@].on_failure,
                None => !self.states().contains_key(service_name@),
            },
    {
        match assoc_find(&self.blue_green_states, &chars_of(service_name)) {
            Some(j) => Some(copy_state(&self.blue_green_states[j].1)),
            None => None,
        }
    }

    /// Whether `service_name` is deployed blue-green.
    pub fn is_blue_green(&self, service_name: &str) -> (r: bool)
        ensures
            r == self.states().contains_key(service_name@),
    {
        assoc_find(&self.blue_green_states, &chars_of(service_name)).is_some()
    }

    /// What to do when the new instance of `service_name` fails; an error without state.
    pub fn handle_failure(&self, service_name: &str) -> (r: Result<OnFailureAction, String>)
        ensures
            match r {
                Ok(a) => self.states().contains_key(service_name@) && a == self.states()[service_name@].on_failure,
                Err(m) => !self.states().contains_key(service_name@) && m@ == no_state_text(service_name@),
            },
    {
        match assoc_find(&self.blue_green_states, &chars_of(service_name)) {
            Some(j) => Ok(self.blue_green_states[j].1.on_failure),
            None => Err(no_state(service_name)),
        }
    }
}

fn copy_recreate(c: &RecreateRolloutConfig) -> (r: RecreateRolloutConfig)
    ensures
        r.ports@ == c.ports@,
{
    let mut ports: Vec<(String, crate::config::PortValue)> = Vec::new();
    let mut i: usize = 0;
    while i < c.ports.len()
        invariant
            i <= c.ports@.len(),
            ports@ == c.ports@.take(i as int),
        decreases c.ports@.len() - i,
    {
        let name = c.ports[i].0.clone();
        ports.push((name, c.ports[i].1));
        assert(ports@ =~= c.ports@.take(i + 1));
        i = i + 1;
    }
    assert(c.ports@.take(c.ports@.len() as int) =~= c.ports@);
    RecreateRolloutConfig { ports }
}

/// Two switches bring a service back to the colour it started with, on the same ports.
pub proof fn lemma_switch_twice(before: BlueGreenState, middle: BlueGreenState, after: BlueGreenState)
    requires
        middle.active == before.active.other(),
        middle.ports@ == before.ports@,
        after.active == middle.active.other(),
        after.ports@ == middle.ports@,
    ensures
        after.active == before.active,
        after.active_port_of("http"@) == before.active_port_of("http"@),
{
}

} // verus!
