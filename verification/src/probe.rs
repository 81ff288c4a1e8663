//! Interpretation of process-existence probes.
//!
//! The application spawns the exact-name and pattern process searches and
//! stores their captured outputs in the probe cache under the keys
//! `pgrep_krun` and `pgrep_libkrun`; what those outputs mean, and when the
//! cache alone can answer "is the VM running", is decided here.

use vstd::prelude::*;

use crate::cache::entry_fresh;
use crate::cache::CommandCache;
use crate::cache::ProbeOutput;
use crate::status::PGREP_CACHE_DURATION_MS;

verus! {

/// A process-existence probe reports "running" exactly when the search
/// command succeeded with non-empty output.
pub open spec fn probe_is_running(o: ProbeOutput) -> bool {
    o.success && o.stdout@.len() > 0
}

/// Reads a probe result as a process-existence answer.
pub fn probe_running(output: &ProbeOutput) -> (r: bool)
    ensures
        r == probe_is_running(*output),
{
    output.success && output.stdout.len() > 0
}

/// The VM-running judgment from the cached probes alone, with the
/// exact-name probe consulted first and short-circuiting a positive answer,
/// as the live check does.  `None` means the cache cannot decide and a
/// probe must be spawned first.
pub fn is_vm_running_cached(cache: &CommandCache, now_ms: u64) -> (r: Option<bool>)
    requires
        cache.wf(),
    ensures
        ({
            let kk = "pgrep_krun"@;
            let lk = "pgrep_libkrun"@;
            let kfresh = cache.contains_key(kk) && entry_fresh(
                cache.entry_for(kk).timestamp_ms,
                now_ms,
                PGREP_CACHE_DURATION_MS,
            );
            let lfresh = cache.contains_key(lk) && entry_fresh(
                cache.entry_for(lk).timestamp_ms,
                now_ms,
                PGREP_CACHE_DURATION_MS,
            );
            let krun = probe_is_running(cache.entry_for(kk).output);
            let libkrun = probe_is_running(cache.entry_for(lk).output);
            if kfresh && krun {
                r == Some(true)
            } else if kfresh && lfresh {
                r == Some(libkrun)
            } else {
                r is None
            }
        }),
{
    match cache.get("pgrep_krun", now_ms, PGREP_CACHE_DURATION_MS) {
        Some(k) => {
            if probe_running(k) {
                Some(true)
            } else {
                match cache.get("pgrep_libkrun", now_ms, PGREP_CACHE_DURATION_MS) {
                    Some(l) => Some(probe_running(l)),
                    None => None,
                }
            }
        },
        None => None,
    }
}

} // verus!
