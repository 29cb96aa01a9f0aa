//! Blue-green rollouts: two sets of ports, one serving (active) while a new version
//! starts on the other; switching makes the other set active.

use vstd::prelude::*;
use crate::assoc::{assoc_find, assoc_view};
use crate::config::{BlueGreenPort, BlueGreenRolloutConfig};
use crate::duration::Duration;
use crate::text::{chars_of, str_eq};
use crate::clock::{now, time_since};

verus! {

/// The colour of a set of ports.
#[derive(Clone, Copy, Debug, PartialEq, Eq, Structural)]
pub enum BlueGreenColor {
    Blue,
    Green,
}

impl BlueGreenColor {
    /// The other colour.
    pub open spec fn other(self) -> BlueGreenColor {
        match self {
            BlueGreenColor::Blue => BlueGreenColor::Green,
            BlueGreenColor::Green => BlueGreenColor::Blue,
        }
    }

    /// The other colour.
    pub fn opposite(&self) -> (r: BlueGreenColor)
        ensures
            r == self.other(),
    {
        match self {
            BlueGreenColor::Blue => BlueGreenColor::Green,
            BlueGreenColor::Green => BlueGreenColor::Blue,
        }
    }
}

/// The port of the given colour.
pub open spec fn port_of(c: BlueGreenColor, p: BlueGreenPort) -> u16 {
    match c {
        BlueGreenColor::Blue => p.blue,
        BlueGreenColor::Green => p.green,
    }
}

/// What to do when the new instance does not become healthy.
#[derive(Clone, Copy, Debug, PartialEq, Eq, Structural)]
pub enum OnFailureAction {
    KeepOld,
    Abort,
}

impl Default for OnFailureAction {
    /// Keep the old instance.
    fn default() -> (r: Self)
        ensures
            r == OnFailureAction::KeepOld,
    {
        OnFailureAction::KeepOld
    }
}

/// The state of a blue-green service.
#[derive(Debug)]
pub struct BlueGreenState {
    pub active: BlueGreenColor,
    /// The port pairs by name (later entries win).
    pub ports: Vec<(String, BlueGreenPort)>,
    /// How long a new instance must stay healthy before the switch.
    pub healthy_duration: Duration,
    /// How long to wait for a new instance.
    pub timeout: Duration,
    pub on_failure: OnFailureAction,
}

/// The port called `name` of the given colour, if there is such a pair.
pub open spec fn colored_port(ports: Seq<(String, BlueGreenPort)>, c: BlueGreenColor, name: Seq<char>) -> Option<u16> {
    if assoc_view(ports).contains_key(name) {
        Some(port_of(c, assoc_view(ports)[name]))
    } else {
        None
    }
}

/// `pairs` holds, for each pair of `ports` in order, its name and its port of colour `c`.
pub open spec fn colored_ports(pairs: Seq<(String, u16)>, ports: Seq<(String, BlueGreenPort)>, c: BlueGreenColor) -> bool {
    &&& pairs.len() == ports.len()
    &&& forall|i: int| #![trigger pairs[i]] 0 <= i < pairs.len() ==> pairs[i].0@ == ports[i].0@ && pairs[i].1 == port_of(c, ports[i].1)
}

/// The action named by the configuration: `abort`, otherwise keeping the old instance.
pub open spec fn failure_action(on_failure: Option<Seq<char>>) -> OnFailureAction {
    if on_failure == Some("abort"@) {
        OnFailureAction::Abort
    } else {
        OnFailureAction::KeepOld
    }
}

impl BlueGreenState {
    /// The active port called `name`.
    pub open spec fn active_port_of(&self, name: Seq<char>) -> Option<u16> {
        colored_port(self.ports@, self.active, name)
    }

    /// The inactive port called `name`.
    pub open spec fn inactive_port_of(&self, name: Seq<char>) -> Option<u16> {
        colored_port(self.ports@, self.active.other(), name)
    }

    /// The state of a service first deployed with `config`: blue is active. The durations
    /// are those written in the configuration, read as durations (`None` where a duration
    /// is missing or unreadable); they default to ten seconds of health and a minute of
    /// waiting.
    pub fn from_config(config: &BlueGreenRolloutConfig, healthy_duration: Option<Duration>, timeout: Option<Duration>) -> (r: Self)
        ensures
            r.active == BlueGreenColor::Blue,
            r.ports@.len() == config.ports@.len(),
            forall|i: int| #![trigger r.ports@[i]] 0 <= i < r.ports@.len() ==> r.ports@[i].0@ == config.ports@[i].0@ && r.ports@[i].1 == config.ports@[i].1,
            assoc_view(r.ports@) == assoc_view(config.ports@),
            r.healthy_duration == (match healthy_duration {
                Some(d) => d,
                None => Duration { secs: 10, nanos: 0 },
            }),
            r.timeout == (match timeout {
                Some(d) => d,
                None => Duration { secs: 60, nanos: 0 },
            }),
            r.on_failure == failure_action(match config.on_failure {
                Some(s) => Some(s@),
                None => None,
            }),
    {
        let healthy_duration = match healthy_duration {
            Some(d) => d,
            None => Duration::from_secs(10),
        };
        let timeout = match timeout {
            Some(d) => d,
            None => Duration::from_secs(60),
        };
        let on_failure = match &config.on_failure {
            Some(s) => if str_eq(s.as_str(), "abort") {
                OnFailureAction::Abort
            } else {
                OnFailureAction::KeepOld
            },
            None => OnFailureAction::KeepOld,
        };
        let mut ports: Vec<(String, BlueGreenPort)> = Vec::new();
        let mut i: usize = 0;
        while i < config.ports.len()
            invariant
                i <= config.ports@.len(),
                ports@.len() == i,
                forall|j: int| #![trigger ports@[j]] 0 <= j < i ==> ports@[j].0@ == config.ports@[j].0@ && ports@[j].1 == config.ports@[j].1,
            decreases config.ports.len() - i,
        {
            ports.push((config.ports[i].0.clone(), config.ports[i].1));
            i = i + 1;
        }
        proof {
            lemma_same_keys_same_view(ports@, config.ports@);
        }
        BlueGreenState { active: BlueGreenColor::Blue, ports, healthy_duration, timeout, on_failure }
    }

    /// The active port called `name`.
    pub fn active_port(&self, name: &str) -> (r: Option<u16>)
        ensures
            r == self.active_port_of(name@),
    {
        match assoc_find(&self.ports, &chars_of(name)) {
            Some(j) => Some(match self.active {
                BlueGreenColor::Blue => self.ports[j].1.blue,
                BlueGreenColor::Green => self.ports[j].1.green,
            }),
            None => None,
        }
    }

    /// The inactive port called `name`.
    pub fn inactive_port(&self, name: &str) -> (r: Option<u16>)
        ensures
            r == self.inactive_port_of(name@),
    {
        match assoc_find(&self.ports, &chars_of(name)) {
            Some(j) => Some(match self.active {
                BlueGreenColor::Blue => self.ports[j].1.green,
                BlueGreenColor::Green => self.ports[j].1.blue,
            }),
            None => None,
        }
    }

    /// All active ports, by name.
    pub fn active_ports(&self) -> (r: Vec<(String, u16)>)
        ensures
            colored_ports(r@, self.ports@, self.active),
    {
        ports_of_color(&self.ports, self.active)
    }

    /// All inactive ports, by name.
    pub fn inactive_ports(&self) -> (r: Vec<(String, u16)>)
        ensures
            colored_ports(r@, self.ports@, self.active.other()),
    {
        ports_of_color(&self.ports, self.active.opposite())
    }

    /// Makes the other colour active.
    pub fn switch(&mut self)
        ensures
            final(self).active == old(self).active.other(),
            final(self).ports@ == old(self).ports@,
            final(self).healthy_duration == old(self).healthy_duration,
            final(self).timeout == old(self).timeout,
            final(self).on_failure == old(self).on_failure,
    {
        self.active = self.active.opposite();
    }
}

/// Tables with the same keys and values, pair by pair, have the same map view.
proof fn lemma_same_keys_same_view<V>(a: Seq<(String, V)>, b: Seq<(String, V)>)
    requires
        a.len() == b.len(),
        forall|i: int| #![trigger a[i]] 0 <= i < a.len() ==> a[i].0@ == b[i].0@ && a[i].1 == b[i].1,
    ensures
        assoc_view(a) == assoc_view(b),
    decreases a.len(),
{
    if a.len() > 0 {
        assert(a.last() == a[a.len() - 1]);
        assert forall|i: int| #![trigger a.drop_last()[i]] 0 <= i < a.drop_last().len() implies a.drop_last()[i].0@ == b.drop_last()[i].0@ && a.drop_last()[i].1 == b.drop_last()[i].1 by {
            assert(a.drop_last()[i] == a[i]);
            assert(b.drop_last()[i] == b[i]);
        }
        lemma_same_keys_same_view(a.drop_last(), b.drop_last());
    }
}

/// The ports of colour `c`, by name.
fn ports_of_color(ports: &Vec<(String, BlueGreenPort)>, c: BlueGreenColor) -> (r: Vec<(String, u16)>)
    ensures
        colored_ports(r@, ports@, c),
{
    let mut r: Vec<(String, u16)> = Vec::new();
    let mut i: usize = 0;
    while i < ports.len()
        invariant
            i <= ports@.len(),
            r@.len() == i,
            forall|j: int| #![trigger r@[j]] 0 <= j < i ==> r@[j].0@ == ports@[j].0@ && r@[j].1 == port_of(c, ports@[j].1),
        decreases ports.len() - i,
    {
        let p = ports[i].1;
        let v = match c {
            BlueGreenColor::Blue => p.blue,
            BlueGreenColor::Green => p.green,
        };
        r.push((ports[i].0.clone(), v));
        i = i + 1;
    }
    r
}

/// Switching colours twice gives back the colour one started with.
pub proof fn lemma_opposite_involution(c: BlueGreenColor)
    ensures
        c.other().other() == c,
        c.other() != c,
{
}

/// After a switch, the ports that were inactive serve, and the ports that served are the
/// ones a new instance starts on.
pub proof fn lemma_switch_swaps_ports(before: BlueGreenState, after: BlueGreenState, name: Seq<char>)
    requires
        after.active == before.active.other(),
        after.ports@ == before.ports@,
    ensures
        after.active_port_of(name) == before.inactive_port_of(name),
        after.inactive_port_of(name) == before.active_port_of(name),
{
}

/// The ports of a list, by name (later entries win).
pub open spec fn port_map(pairs: Seq<(String, u16)>) -> Map<Seq<char>, u16> {
    assoc_view(pairs)
}

/// Lists of the ports of one colour of the same pairs have the same port map.
proof fn lemma_colored_maps_agree(a: Seq<(String, u16)>, b: Seq<(String, u16)>, ports: Seq<(String, BlueGreenPort)>, c: BlueGreenColor)
    requires
        colored_ports(a, ports, c),
        colored_ports(b, ports, c),
    ensures
        port_map(a) == port_map(b),
{
    assert forall|i: int| #![trigger a[i]] 0 <= i < a.len() implies a[i].0@ == b[i].0@ && a[i].1 == b[i].1 by {
        assert(b[i].0@ == ports[i].0@);
    }
    lemma_same_keys_same_view(a, b);
}

/// A switch swaps the whole port maps: what `active_ports` lists after the switch is, by
/// name, what `inactive_ports` listed before it, and the reverse.
pub proof fn lemma_switch_swaps_port_maps(
    before: BlueGreenState,
    after: BlueGreenState,
    active_before: Seq<(String, u16)>,
    inactive_before: Seq<(String, u16)>,
    active_after: Seq<(String, u16)>,
    inactive_after: Seq<(String, u16)>,
)
    requires
        after.active == before.active.other(),
        after.ports@ == before.ports@,
        colored_ports(active_before, before.ports@, before.active),
        colored_ports(inactive_before, before.ports@, before.active.other()),
        colored_ports(active_after, after.ports@, after.active),
        colored_ports(inactive_after, after.ports@, after.active.other()),
    ensures
        port_map(active_after) == port_map(inactive_before),
        port_map(inactive_after) == port_map(active_before),
{
    lemma_colored_maps_agree(active_after, inactive_before, before.ports@, before.active.other());
    assert(after.active.other() == before.active);
    lemma_colored_maps_agree(inactive_after, active_before, before.ports@, before.active);
}

/// A blue-green deployment in progress: a new instance starting on the inactive ports.
#[derive(Debug)]
pub struct BlueGreenDeployment {
    pub state: BlueGreenState,
    pub start_time: std::time::Instant,
}

impl BlueGreenDeployment {
    /// A deployment of `_service_name` starting now.
    pub fn new(_service_name: &str, state: BlueGreenState) -> (r: Self)
        ensures
            r.state == state,
    {
        BlueGreenDeployment { state, start_time: now() }
    }

    /// The ports the new instance starts on: the inactive ones.
    pub fn new_instance_ports(&self) -> (r: Vec<(String, u16)>)
        ensures
            colored_ports(r@, self.state.ports@, self.state.active.other()),
    {
        self.state.inactive_ports()
    }

    /// Whether the deployment has run longer than its timeout after `elapsed`.
    pub fn timed_out_after(&self, elapsed: Duration) -> (r: bool)
        requires
            self.state.timeout.wf(),
            elapsed.wf(),
        ensures
            r == (elapsed.total_nanos() > self.state.timeout.total_nanos()),
    {
        elapsed.is_longer_than(self.state.timeout)
    }

    /// How much of the timeout is left after `elapsed` (zero once it has passed).
    pub fn remaining_after(&self, elapsed: Duration) -> (r: Duration)
        requires
            self.state.timeout.wf(),
            elapsed.wf(),
        ensures
            r.wf(),
            r.total_nanos() == if self.state.timeout.total_nanos() > elapsed.total_nanos() {
                self.state.timeout.total_nanos() - elapsed.total_nanos()
            } else {
                0
            },
    {
        self.state.timeout.saturating_sub(elapsed)
    }

    /// Whether the deployment has run longer than its timeout; the running time is read
    /// from the clock, so the answer is `timed_out_after` of some running time.
    pub fn is_timed_out(&self) -> (r: bool)
        requires
            self.state.timeout.wf(),
        ensures
            exists|e: Duration| #[trigger] e.wf() && r == (e.total_nanos() > self.state.timeout.total_nanos()),
    {
        let e = time_since(&self.start_time);
        let r = self.timed_out_after(e);
        assert(e.wf());
        r
    }

    /// How much of the timeout is left, by the clock (see `remaining_after`).
    pub fn remaining_timeout(&self) -> (r: Duration)
        requires
            self.state.timeout.wf(),
        ensures
            r.wf(),
            r.total_nanos() <= self.state.timeout.total_nanos(),
    {
        let e = time_since(&self.start_time);
        self.remaining_after(e)
    }

    /// How long the new instance must stay healthy.
    pub fn healthy_duration(&self) -> (r: Duration)
        ensures
            r == self.state.healthy_duration,
    {
        self.state.healthy_duration
    }
}

} // verus!
