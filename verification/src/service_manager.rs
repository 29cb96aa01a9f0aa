//! Lifecycle decisions of the service manager: what happens when a service exits.

use vstd::prelude::*;
use crate::config::{RestartPolicy, ServiceState};

verus! {

/// Where a service is in its start-up.
#[derive(Debug)]
pub enum ServicePhase {
    /// Waiting for the named dependency.
    WaitingFor(String),
    PreHooks,
    Building,
    Starting,
    PostHooks,
    Running,
    /// Start-up failed, with the reason.
    Failed(String),
}

/// How a service runs.
#[derive(Debug)]
pub enum ProcessType {
    /// A process of the host.
    Process,
    /// A docker container.
    Docker { container_name: String },
}

/// Whether a service that exited with `exit_code` is started again: never, only after a
/// failure, always, or unless it was being stopped (`stopping`; `None` when the service is
/// not known to the manager, which does not restart it).
pub open spec fn restart_wanted(policy: RestartPolicy, exit_code: i32, stopping: Option<bool>) -> bool {
    match policy {
        RestartPolicy::Never => false,
        RestartPolicy::OnFailure => exit_code != 0,
        RestartPolicy::Always => true,
        RestartPolicy::UnlessStopped => stopping == Some(false),
    }
}

/// Whether a service that exited is started again.
pub fn should_restart(policy: RestartPolicy, exit_code: i32, stopping: Option<bool>) -> (r: bool)
    ensures
        r == restart_wanted(policy, exit_code, stopping),
{
    match policy {
        RestartPolicy::Never => false,
        RestartPolicy::OnFailure => exit_code != 0,
        RestartPolicy::Always => true,
        RestartPolicy::UnlessStopped => match stopping {
            Some(s) => !s,
            None => false,
        },
    }
}

/// The restart policies, by what they promise: `always` restarts a service after every
/// exit, clean or not and whether or not it was being stopped; `never` never does; every
/// policy that restarts a service on some exit is outdone by `always`; `on-failure`
/// restarts exactly the failed exits; `unless-stopped` never restarts a service that was
/// being stopped or is unknown.
pub proof fn lemma_restart_policies(policy: RestartPolicy, exit_code: i32, stopping: Option<bool>)
    ensures
        restart_wanted(RestartPolicy::Always, exit_code, stopping),
        !restart_wanted(RestartPolicy::Never, exit_code, stopping),
        restart_wanted(policy, exit_code, stopping) ==> restart_wanted(RestartPolicy::Always, exit_code, stopping),
        restart_wanted(RestartPolicy::OnFailure, exit_code, stopping) <==> exit_code != 0,
        stopping != Some(false) ==> !restart_wanted(RestartPolicy::UnlessStopped, exit_code, stopping),
        restart_wanted(RestartPolicy::UnlessStopped, 0, Some(false)),
{
}

/// Seconds to wait before the `restart_count`-th restart: doubling from one second, at
/// most a minute.
pub open spec fn backoff_secs(restart_count: u32) -> nat {
    let e: nat = if restart_count < 6 { restart_count as nat } else { 6 };
    let p = vstd::arithmetic::power2::pow2(e);
    if p < 60 { p } else { 60 }
}

/// Seconds to wait before the `restart_count`-th restart.
pub fn restart_delay_secs(restart_count: u32) -> (r: u64)
    ensures
        r == backoff_secs(restart_count),
        1 <= r <= 60,
{
    let e: u32 = if restart_count < 6 { restart_count } else { 6 };
    let mut p: u64 = 1;
    let mut i: u32 = 0;
    proof {
        vstd::arithmetic::power2::lemma2_to64();
    }
    while i < e
        invariant
            i <= e <= 6,
            p == vstd::arithmetic::power2::pow2(i as nat),
        decreases e - i,
    {
        proof {
            vstd::arithmetic::power2::lemma_pow2_unfold((i + 1) as nat);
            vstd::arithmetic::power2::lemma2_to64();
        }
        p = p * 2;
        i = i + 1;
    }
    proof {
        vstd::arithmetic::power2::lemma2_to64();
    }
    if p < 60 { p } else { 60 }
}

/// What the manager does after a service exits.
#[derive(Debug)]
pub enum ExitAction {
    /// Start it again after `delay_secs`, counting the restart.
    Restart { restart_count: u32, delay_secs: u64, last_error: String },
    /// Leave it in `state`: exited after success, crashed after failure.
    Settle { state: ServiceState },
}

/// What happens after a service with `policy` and `restart_count` restarts so far exits
/// with `exit_code` (`stopping` as for `restart_wanted`).
pub fn exit_action(policy: RestartPolicy, exit_code: i32, stopping: Option<bool>, restart_count: u32) -> (r: ExitAction)
    requires
        restart_count < u32::MAX,
    ensures
        restart_wanted(policy, exit_code, stopping) ==> (r matches ExitAction::Restart { restart_count: c, delay_secs: d, last_error: m }
            && c == restart_count + 1 && d == backoff_secs(c) && m@ == "Exit code: "@ + signed_decimal(exit_code as int)),
        !restart_wanted(policy, exit_code, stopping) ==> r == (ExitAction::Settle {
            state: if exit_code == 0 { ServiceState::Exited } else { ServiceState::Crashed },
        }),
{
    if should_restart(policy, exit_code, stopping) {
        let c = restart_count + 1;
        let mut m = "Exit code: ".to_owned();
        let d = crate::text::string_of(&i32_decimal(exit_code));
        m.append(d.as_str());
        ExitAction::Restart { restart_count: c, delay_secs: restart_delay_secs(c), last_error: m }
    } else if exit_code == 0 {
        ExitAction::Settle { state: ServiceState::Exited }
    } else {
        ExitAction::Settle { state: ServiceState::Crashed }
    }
}

/// The decimal text of a signed number (a `-` before the digits of a negative one).
pub open spec fn signed_decimal(n: int) -> Seq<char> {
    if n < 0 {
        seq!['-'] + crate::text::decimal((-n) as nat)
    } else {
        crate::text::decimal(n as nat)
    }
}

fn i32_decimal(n: i32) -> (r: Vec<char>)
    ensures
        r@ == signed_decimal(n as int),
{
    if n < 0 {
        let m: u64 = (-(n as i64)) as u64;
        let mut v = vec!['-'];
        let d = crate::text::u64_decimal(m);
        crate::text::push_all(&mut v, &d);
        assert(v@ =~= signed_decimal(n as int));
        v
    } else {
        crate::text::u64_decimal(n as u64)
    }
}

} // verus!
