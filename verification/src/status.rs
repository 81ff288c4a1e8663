//! Mount/VM state reconciliation.
//!
//! "What is mounted and is the VM alive" is answered from three sources in
//! strict priority order: the helper's own control socket (authoritative
//! when it names a mount point), a loopback-NFS signature line in the host
//! mount table, and finally the cached process-existence probes, which can
//! only flag an orphaned VM.  The socket read and the probe commands are
//! the application's job; this module decides, from their captured text,
//! what the reconciled status is.

use vstd::prelude::*;

use serde_json::Value;

use crate::text::contains_seq;
use crate::text::lines_of;
use crate::text::split_lines;
use crate::text::split_ws;
use crate::text::str_contains;
use crate::text::tokens_of;

verus! {

/// Freshness bound for the cached mount-table probe, in milliseconds.
pub const MOUNT_CACHE_DURATION_MS: u64 = 1000;

/// Freshness bound for the cached process-existence probes, in
/// milliseconds.
pub const PGREP_CACHE_DURATION_MS: u64 = 500;

/// Staleness ceiling: entries older than this are swept regardless of size,
/// in milliseconds.
pub const MAX_CACHE_AGE_MS: u64 = 60000;

/// The helper's runtime-info record, as its control socket reports it:
/// every field optional, absence of `mount_point` meaning "not mounted".
pub struct RuntimeInfo {
    pub device: Option<String>,
    pub mount_point: Option<String>,
    pub filesystem: Option<String>,
    pub vm_pid: Option<u32>,
    pub ram_mb: Option<u32>,
    pub vcpus: Option<u32>,
}

/// Ghost image of `RuntimeInfo`, over character sequences.
pub struct RuntimeInfoView {
    pub device: Option<Seq<char>>,
    pub mount_point: Option<Seq<char>>,
    pub filesystem: Option<Seq<char>>,
    pub vm_pid: Option<u32>,
    pub ram_mb: Option<u32>,
    pub vcpus: Option<u32>,
}

/// The view of an optional owned string.
pub open spec fn opt_str_view(o: Option<String>) -> Option<Seq<char>> {
    match o {
        Some(s) => Some(s@),
        None => None,
    }
}

impl View for RuntimeInfo {
    type V = RuntimeInfoView;

    open spec fn view(&self) -> RuntimeInfoView {
        RuntimeInfoView {
            device: opt_str_view(self.device),
            mount_point: opt_str_view(self.mount_point),
            filesystem: opt_str_view(self.filesystem),
            vm_pid: self.vm_pid,
            ram_mb: self.ram_mb,
            vcpus: self.vcpus,
        }
    }
}

/// What decoding a status reply yields.  The reply is a function of the
/// received text alone; its exact shape (JSON with optional fields) is the
/// decoder's business, so the result only carries a name here.
pub uninterp spec fn runtime_info_of(s: Seq<char>) -> Option<RuntimeInfoView>;

/// The view of an optional decoded record.
pub open spec fn opt_info_view(r: Option<RuntimeInfo>) -> Option<RuntimeInfoView> {
    match r {
        Some(i) => Some(i@),
        None => None,
    }
}

/// Relies on `serde_json::from_str::<serde_json::Value>` and the accessors
/// `Value::get`, `Value::as_str` and `Value::as_u64`: decodes the helper's
/// one-object JSON status reply into its optional fields, `None` when the
/// reply is not a JSON object.
#[verifier::external_body]
fn parse_runtime_info(s: &str) -> (r: Option<RuntimeInfo>)
    ensures
        opt_info_view(r) == runtime_info_of(s@),
{
    let v: Value = match serde_json::from_str(s) {
        Ok(v) => v,
        Err(_) => return None,
    };
    Some(RuntimeInfo {
        device: v.get("device").and_then(Value::as_str).map(str::to_owned),
        mount_point: v.get("mount_point").and_then(Value::as_str).map(str::to_owned),
        filesystem: v.get("filesystem").and_then(Value::as_str).map(str::to_owned),
        vm_pid: v.get("vm_pid").and_then(Value::as_u64).and_then(|x| u32::try_from(x).ok()),
        ram_mb: v.get("ram_mb").and_then(Value::as_u64).and_then(|x| u32::try_from(x).ok()),
        vcpus: v.get("vcpus").and_then(Value::as_u64).and_then(|x| u32::try_from(x).ok()),
    })
}

/// The reconciled view of the mount/VM state.  Produced fresh on every
/// status query, never cached itself.
pub struct MountInfo {
    pub mounted: bool,
    pub device: Option<String>,
    pub mount_point: Option<String>,
    pub filesystem: Option<String>,
    pub vm_running: bool,
    pub ram_mb: Option<u32>,
    pub vcpus: Option<u32>,
    pub orphaned_instance: bool,
}

/// Ghost image of `MountInfo`, over character sequences.
pub struct MountInfoView {
    pub mounted: bool,
    pub device: Option<Seq<char>>,
    pub mount_point: Option<Seq<char>>,
    pub filesystem: Option<Seq<char>>,
    pub vm_running: bool,
    pub ram_mb: Option<u32>,
    pub vcpus: Option<u32>,
    pub orphaned_instance: bool,
}

impl View for MountInfo {
    type V = MountInfoView;

    open spec fn view(&self) -> MountInfoView {
        MountInfoView {
            mounted: self.mounted,
            device: opt_str_view(self.device),
            mount_point: opt_str_view(self.mount_point),
            filesystem: opt_str_view(self.filesystem),
            vm_running: self.vm_running,
            ram_mb: self.ram_mb,
            vcpus: self.vcpus,
            orphaned_instance: self.orphaned_instance,
        }
    }
}

/// The view of an optional reconciled status.
pub open spec fn opt_status_view(r: Option<MountInfo>) -> Option<MountInfoView> {
    match r {
        Some(m) => Some(m@),
        None => None,
    }
}

/// The status the authoritative channel dictates once it names a mount
/// point: mounted there, VM alive exactly when a PID is reported, never
/// orphaned.
pub open spec fn authoritative_status(info: RuntimeInfoView) -> MountInfoView {
    MountInfoView {
        mounted: true,
        device: info.device,
        mount_point: info.mount_point,
        filesystem: info.filesystem,
        vm_running: info.vm_pid is Some,
        ram_mb: info.ram_mb,
        vcpus: info.vcpus,
        orphaned_instance: false,
    }
}

/// What the socket strategy concludes from a decoded reply: a record that
/// names a mount point is authoritative; anything else falls through.
pub open spec fn socket_status(parsed: Option<RuntimeInfoView>) -> Option<MountInfoView> {
    match parsed {
        Some(info) => if info.mount_point is Some {
            Some(authoritative_status(info))
        } else {
            None
        },
        None => None,
    }
}

/// The verified tail of the socket strategy: what a decoded record yields,
/// for every possible record.
pub fn status_from_runtime_info(info: RuntimeInfo) -> (r: Option<MountInfo>)
    ensures
        opt_status_view(r) == socket_status(Some(info@)),
{
    if info.mount_point.is_some() {
        Some(
            MountInfo {
                mounted: true,
                device: info.device,
                mount_point: info.mount_point,
                filesystem: info.filesystem,
                vm_running: info.vm_pid.is_some(),
                ram_mb: info.ram_mb,
                vcpus: info.vcpus,
                orphaned_instance: false,
            },
        )
    } else {
        None
    }
}

/// The socket strategy on a raw reply: decode, then judge the record.
pub fn try_socket_status(reply: &str) -> (r: Option<MountInfo>)
    ensures
        opt_status_view(r) == socket_status(runtime_info_of(reply@)),
{
    match parse_runtime_info(reply) {
        Some(info) => status_from_runtime_info(info),
        None => None,
    }
}

/// The loopback-NFS export signature of the helper, somewhere in the text:
/// a local-loopback export path and a mount point under the removable-
/// volumes directory.
pub open spec fn nfs_signature(t: Seq<char>) -> bool {
    contains_seq(t, "localhost:/mnt/"@) && contains_seq(t, "/Volumes/"@)
}

/// Whether the mount table shows the helper's loopback-NFS signature.
pub fn check_nfs_mount_exists(mount_output: &str) -> (r: bool)
    ensures
        r == nfs_signature(mount_output@),
{
    str_contains(mount_output, "localhost:/mnt/") && str_contains(mount_output, "/Volumes/")
}

/// A mount-table line carrying the signature.
pub open spec fn nfs_signature_line(l: Seq<char>) -> bool {
    contains_seq(l, "localhost:/mnt/"@) && contains_seq(l, "/Volumes/"@)
}

/// What one mount-table line contributes: on a signature line of the form
/// `<source> on <mount point> (<options>)` the source and mount point are
/// its first and third token, and the filesystem kind is assumed to be NFS,
/// since the table does not expose it.
pub open spec fn line_fallback(l: Seq<char>) -> Option<MountInfoView> {
    if nfs_signature_line(l) && split_ws(l).len() >= 3 {
        Some(
            MountInfoView {
                mounted: true,
                device: Some(split_ws(l)[0]),
                mount_point: Some(split_ws(l)[2]),
                filesystem: Some("nfs"@),
                vm_running: true,
                ram_mb: None,
                vcpus: None,
                orphaned_instance: false,
            },
        )
    } else {
        None
    }
}

/// The first line that contributes decides.
pub open spec fn fallback_status_lines(lines: Seq<Seq<char>>) -> Option<MountInfoView>
    decreases lines.len(),
{
    if lines.len() == 0 {
        None
    } else {
        match line_fallback(lines[0]) {
            Some(m) => Some(m),
            None => fallback_status_lines(lines.skip(1)),
        }
    }
}

/// What the mount-table fallback concludes from the probe text.
pub open spec fn fallback_status(t: Seq<char>) -> Option<MountInfoView> {
    fallback_status_lines(split_lines(t))
}

/// Fallback inference from the cached mount table: scans for the first
/// loopback-NFS signature line and synthesizes a status from it.
#[verifier::loop_isolation(false)]
pub fn check_mount_point_fallback(mount_output: &str) -> (r: Option<MountInfo>)
    ensures
        opt_status_view(r) == fallback_status(mount_output@),
{
    let lines = lines_of(mount_output);
    let ghost lviews = split_lines(mount_output@);
    let n = lines.len();
    let mut i: usize = 0;
    proof {
        assert(lviews.skip(0) =~= lviews);
    }
    while i < n
        invariant
            0 <= i <= n,
            fallback_status_lines(lviews.skip(i as int)) == fallback_status(mount_output@),
        decreases n - i,
    {
        let line = &lines[i];
        proof {
            assert(line@ == lviews[i as int]);
            assert(lviews.skip(i as int)[0] == lviews[i as int]);
            assert(lviews.skip(i as int).skip(1) =~= lviews.skip(i + 1));
        }
        if str_contains(line.as_str(), "localhost:/mnt/") && str_contains(
            line.as_str(),
            "/Volumes/",
        ) {
            let tokens = tokens_of(line.as_str());
            if tokens.len() >= 3 {
                let r = Some(
                    MountInfo {
                        mounted: true,
                        device: Some(tokens[0].clone()),
                        mount_point: Some(tokens[2].clone()),
                        filesystem: Some(String::from_str("nfs")),
                        vm_running: true,
                        ram_mb: None,
                        vcpus: None,
                        orphaned_instance: false,
                    },
                );
                proof {
                    assert(tokens@[0]@ == split_ws(line@)[0]);
                    assert(tokens@[2]@ == split_ws(line@)[2]);
                    assert(line_fallback(lviews[i as int]) is Some);
                    assert(opt_status_view(r) == fallback_status_lines(lviews.skip(i as int)));
                }
                return r;
            }
        }
        proof {
            assert(line_fallback(lviews[i as int]) is None);
        }
        i = i + 1;
    }
    proof {
        assert(lviews.skip(n as int) =~= Seq::<Seq<char>>::empty());
    }
    None
}

/// The status when no strategy names a mount: clear, except that a running
/// helper VM with nothing mounted is flagged as an orphaned instance.
pub open spec fn clear_status(vm_running: bool) -> MountInfoView {
    MountInfoView {
        mounted: false,
        device: None,
        mount_point: None,
        filesystem: None,
        vm_running: vm_running,
        ram_mb: None,
        vcpus: None,
        orphaned_instance: vm_running,
    }
}

/// The whole reconciliation, in strict priority order: the authoritative
/// channel short-circuits, then the mount-table fallback, then orphan
/// detection from the process probes.
pub open spec fn reconciled_status(
    reply: Option<Seq<char>>,
    table: Option<Seq<char>>,
    vm_running: bool,
) -> MountInfoView {
    let from_socket = match reply {
        Some(s) => socket_status(runtime_info_of(s)),
        None => None,
    };
    match from_socket {
        Some(m) => m,
        None => {
            let from_table = match table {
                Some(t) => fallback_status(t),
                None => None,
            };
            match from_table {
                Some(m) => m,
                None => clear_status(vm_running),
            }
        },
    }
}

/// Answers a status query from what the probes handed in: the socket reply,
/// if one was read; the mount-table text, if the probe ran; and whether the
/// process probes see the helper VM.  Transient probe failures surface here
/// as `None` arguments and fall through silently.
pub fn get_mount_status_sync(
    socket_reply: Option<&str>,
    mount_table: Option<&str>,
    vm_running: bool,
) -> (r: MountInfo)
    ensures
        r@ == reconciled_status(
            match socket_reply {
                Some(s) => Some(s@),
                None => None,
            },
            match mount_table {
                Some(t) => Some(t@),
                None => None,
            },
            vm_running,
        ),
{
    if let Some(reply) = socket_reply {
        if let Some(m) = try_socket_status(reply) {
            return m;
        }
    }
    if let Some(table) = mount_table {
        if let Some(m) = check_mount_point_fallback(table) {
            return m;
        }
    }
    MountInfo {
        mounted: false,
        device: None,
        mount_point: None,
        filesystem: None,
        vm_running,
        ram_mb: None,
        vcpus: None,
        orphaned_instance: vm_running,
    }
}

/// A live authoritative reply that names a mount point decides the status:
/// whatever the mount table says and whatever the process probes see, the
/// query returns exactly the authoritative record, as mounted.
pub proof fn lemma_authoritative_wins(
    reply: Seq<char>,
    t1: Option<Seq<char>>,
    t2: Option<Seq<char>>,
    vm1: bool,
    vm2: bool,
)
    requires
        (runtime_info_of(reply) matches Some(info) && info.mount_point is Some),
    ensures
        reconciled_status(Some(reply), t1, vm1) == reconciled_status(Some(reply), t2, vm2),
        reconciled_status(Some(reply), t1, vm1).mounted,
{
}

/// With no authoritative reply and no signature in the mount table, a
/// running helper VM is reported as an orphaned instance, not as a mount.
pub proof fn lemma_orphan_detection(reply: Option<Seq<char>>, table: Option<Seq<char>>)
    requires
        reply matches Some(s) ==> socket_status(runtime_info_of(s)) is None,
        table matches Some(t) ==> fallback_status(t) is None,
    ensures
        reconciled_status(reply, table, true) == clear_status(true),
        reconciled_status(reply, table, true).orphaned_instance,
        !reconciled_status(reply, table, true).mounted,
        reconciled_status(reply, table, false) == clear_status(false),
        !reconciled_status(reply, table, false).orphaned_instance,
{
}

} // verus!
