//! Post-mutation settle/retry policy.
//!
//! After a mount, unmount or eject the ground truth changes asynchronously;
//! the reconciler polls a probe until the expected state becomes observable
//! or a fixed retry budget runs out.  The sleeping loop lives in the
//! application; each of its decisions is one call of a step function here,
//! and the budget arithmetic and the final failure classification are
//! verified.

use vstd::prelude::*;

use crate::elevate::ExecError;
use crate::text::contains_seq;
use crate::text::str_contains;
use crate::text::str_starts_with;

verus! {

/// Retry budget after a mount: checks of the mount table.
pub const MOUNT_SETTLE_ATTEMPTS: u32 = 40;

/// Interval between two mount-table checks, in milliseconds.
pub const MOUNT_SETTLE_INTERVAL_MS: u64 = 250;

/// Retry budget of the unmount-confirmation wait an eject runs before
/// powering the disk down.
pub const EJECT_SETTLE_ATTEMPTS: u32 = 10;

/// Interval between two checks of that wait, in milliseconds.
pub const EJECT_SETTLE_INTERVAL_MS: u64 = 500;

/// The next action of a settle loop.
pub enum SettleStep {
    /// The awaited state is observable; polling stops, the operation
    /// succeeded.
    Settled,
    /// Not observable yet: invalidate the relevant probe cache, sleep this
    /// long, then check again.
    Retry { sleep_ms: u64 },
    /// The retry budget is exhausted.
    GiveUp,
}

/// What one settle decision is, for attempt counter `attempt` out of `max`:
/// an observation settles; otherwise the loop retries until the budget is
/// spent.
pub open spec fn settle_step_spec(attempt: u32, max: u32, interval_ms: u64, observed: bool) -> SettleStep {
    if observed {
        SettleStep::Settled
    } else if attempt + 1 < max {
        SettleStep::Retry { sleep_ms: interval_ms }
    } else {
        SettleStep::GiveUp
    }
}

/// One settle decision.
pub fn settle_step(attempt: u32, max: u32, interval_ms: u64, observed: bool) -> (r: SettleStep)
    requires
        attempt < max,
    ensures
        r == settle_step_spec(attempt, max, interval_ms, observed),
{
    if observed {
        SettleStep::Settled
    } else if attempt + 1 < max {
        SettleStep::Retry { sleep_ms: interval_ms }
    } else {
        SettleStep::GiveUp
    }
}

/// One step of mount verification: the observation is the loopback-NFS
/// signature showing in a freshly probed mount table.
pub fn mount_settle_step(attempt: u32, signature_present: bool) -> (r: SettleStep)
    requires
        attempt < MOUNT_SETTLE_ATTEMPTS,
    ensures
        r == settle_step_spec(
            attempt,
            MOUNT_SETTLE_ATTEMPTS,
            MOUNT_SETTLE_INTERVAL_MS,
            signature_present,
        ),
{
    settle_step(attempt, MOUNT_SETTLE_ATTEMPTS, MOUNT_SETTLE_INTERVAL_MS, signature_present)
}

/// One step of the post-unmount wait for the helper VM to shut down: the
/// observation is the VM process being gone from a fresh process probe.
pub fn unmount_settle_step(attempt: u32, vm_gone: bool) -> (r: SettleStep)
    requires
        attempt < MOUNT_SETTLE_ATTEMPTS,
    ensures
        r == settle_step_spec(attempt, MOUNT_SETTLE_ATTEMPTS, MOUNT_SETTLE_INTERVAL_MS, vm_gone),
{
    settle_step(attempt, MOUNT_SETTLE_ATTEMPTS, MOUNT_SETTLE_INTERVAL_MS, vm_gone)
}

/// One step of the shorter unmount-confirmation wait an eject runs: the
/// observation is the signature being gone from a fresh mount table.
pub fn eject_settle_step(attempt: u32, signature_gone: bool) -> (r: SettleStep)
    requires
        attempt < EJECT_SETTLE_ATTEMPTS,
    ensures
        r == settle_step_spec(
            attempt,
            EJECT_SETTLE_ATTEMPTS,
            EJECT_SETTLE_INTERVAL_MS,
            signature_gone,
        ),
{
    settle_step(attempt, EJECT_SETTLE_ATTEMPTS, EJECT_SETTLE_INTERVAL_MS, signature_gone)
}

/// A settle loop that never observes the awaited state cannot settle: on
/// every attempt but the last the step is a retry, on the last it gives up,
/// and on none of them is it `Settled`.
pub proof fn lemma_settle_exhaustion(max: u32, interval_ms: u64, obs: Seq<bool>)
    requires
        obs.len() == max,
        max > 0,
        forall|i: int| 0 <= i < obs.len() ==> !obs[i],
    ensures
        forall|i: int|
            0 <= i < max - 1 ==> (#[trigger] settle_step_spec(i as u32, max, interval_ms, obs[i])
                matches SettleStep::Retry { sleep_ms } && sleep_ms == interval_ms),
        settle_step_spec((max - 1) as u32, max, interval_ms, obs[max - 1]) is GiveUp,
        forall|i: int|
            0 <= i < max ==> !(#[trigger] settle_step_spec(i as u32, max, interval_ms, obs[i])
                is Settled),
{
}

/// The helper's output names a concrete filesystem-level mount failure.
pub open spec fn mount_error_marker(o: Seq<char>) -> bool {
    contains_seq(o, "wrong fs type"@) || contains_seq(o, "mount:"@)
}

/// What an exhausted mount verification reports, from the helper's own
/// result: a concrete filesystem error when the output names one, the
/// ambiguous not-observed-in-time message when it does not, and the
/// helper's own error unchanged when the invocation already failed.  Every
/// branch is an error: exceeding the budget is never reported as success.
pub fn mount_failure_result(cli_result: Result<String, ExecError>) -> (r: ExecError)
    ensures
        ({
            match cli_result {
                Ok(o) => if mount_error_marker(o@) {
                    r matches ExecError::MountVerificationFailed(m) && m@ == "Mount failed: "@
                        + o@
                } else {
                    r matches ExecError::MountVerificationFailed(m) && m@
                        == "Mount failed: filesystem not mounted after timeout"@
                },
                Err(e) => r == e,
            }
        }),
{
    match cli_result {
        Ok(o) => {
            if str_contains(o.as_str(), "wrong fs type") || str_contains(o.as_str(), "mount:") {
                ExecError::MountVerificationFailed(String::from_str("Mount failed: ").concat(o.as_str()))
            } else {
                ExecError::MountVerificationFailed(
                    String::from_str("Mount failed: filesystem not mounted after timeout"),
                )
            }
        },
        Err(e) => e,
    }
}

/// Helper arguments of a mount: a RAID or LVM identifier is itself the
/// argument; a normal device uses the explicit mount subcommand.
pub fn build_mount_args(device: &str) -> (r: Vec<String>)
    ensures
        ("raid:"@.is_prefix_of(device@) || "lvm:"@.is_prefix_of(device@)) ==> (r@.len() == 1
            && r@[0]@ == device@),
        !("raid:"@.is_prefix_of(device@) || "lvm:"@.is_prefix_of(device@)) ==> (r@.len() == 2
            && r@[0]@ == "mount"@ && r@[1]@ == device@),
{
    let mut r: Vec<String> = Vec::new();
    if str_starts_with(device, "raid:") || str_starts_with(device, "lvm:") {
        r.push(String::from_str(device));
    } else {
        r.push(String::from_str("mount"));
        r.push(String::from_str(device));
    }
    r
}

} // verus!
