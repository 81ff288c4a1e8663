use anylinuxfs_core::check_mount_point_fallback;
use anylinuxfs_core::check_nfs_mount_exists;
use anylinuxfs_core::get_mount_status_sync;
use anylinuxfs_core::is_vm_running_cached;
use anylinuxfs_core::probe_running;
use anylinuxfs_core::status_from_runtime_info;
use anylinuxfs_core::try_socket_status;
use anylinuxfs_core::CommandCache;
use anylinuxfs_core::ProbeOutput;
use anylinuxfs_core::RuntimeInfo;

const AUTHORITATIVE_REPLY: &str = r#"{"device": "/dev/disk5s1", "mount_point": "/Volumes/linux", "filesystem": "ext4", "vm_pid": 4242, "ram_mb": 2048, "vcpus": 4}"#;

#[test]
fn authoritative_reply_wins_over_contradictory_table() {
    // the mount table names a different mount; the socket decides anyway
    let table = "localhost:/mnt/other on /Volumes/other (nfs, nodev)\n";
    let m = get_mount_status_sync(Some(AUTHORITATIVE_REPLY), Some(table), false);
    assert!(m.mounted);
    assert_eq!(m.device.as_deref(), Some("/dev/disk5s1"));
    assert_eq!(m.mount_point.as_deref(), Some("/Volumes/linux"));
    assert_eq!(m.filesystem.as_deref(), Some("ext4"));
    assert!(m.vm_running);
    assert_eq!(m.ram_mb, Some(2048));
    assert_eq!(m.vcpus, Some(4));
    assert!(!m.orphaned_instance);

    // and the answer is the same whatever the fallback sources say
    let other = get_mount_status_sync(Some(AUTHORITATIVE_REPLY), None, true);
    assert_eq!(other.mount_point.as_deref(), Some("/Volumes/linux"));
    assert!(!other.orphaned_instance);
}

#[test]
fn socket_reply_without_mount_point_falls_through() {
    let reply = r#"{"vm_pid": 17}"#;
    assert!(try_socket_status(reply).is_none());
    let table = "localhost:/mnt/x on /Volumes/x (nfs, nosuid)\n";
    let m = get_mount_status_sync(Some(reply), Some(table), false);
    assert!(m.mounted);
    assert_eq!(m.filesystem.as_deref(), Some("nfs"));
}

#[test]
fn unparsable_reply_falls_through() {
    assert!(try_socket_status("not json at all").is_none());
    let m = get_mount_status_sync(Some("not json at all"), None, false);
    assert!(!m.mounted);
}

#[test]
fn runtime_info_judgment_is_exact() {
    let with_mount = RuntimeInfo {
        device: None,
        mount_point: Some("/Volumes/a".to_string()),
        filesystem: None,
        vm_pid: None,
        ram_mb: None,
        vcpus: None,
    };
    let m = status_from_runtime_info(with_mount).unwrap();
    assert!(m.mounted);
    assert!(!m.vm_running);
    assert!(m.device.is_none());

    let without_mount = RuntimeInfo {
        device: Some("/dev/disk5s1".to_string()),
        mount_point: None,
        filesystem: None,
        vm_pid: Some(3),
        ram_mb: None,
        vcpus: None,
    };
    assert!(status_from_runtime_info(without_mount).is_none());
}

#[test]
fn mount_table_line_yields_synthesized_status() {
    let table = "devfs on /dev (devfs, local, nobrowse)\nlocalhost:/mnt/x on /Volumes/x (nfs, nosuid, locallocks)\n";
    let m = check_mount_point_fallback(table).unwrap();
    assert!(m.mounted);
    assert_eq!(m.device.as_deref(), Some("localhost:/mnt/x"));
    assert_eq!(m.mount_point.as_deref(), Some("/Volumes/x"));
    assert_eq!(m.filesystem.as_deref(), Some("nfs"));
    assert!(m.vm_running);
    assert!(!m.orphaned_instance);
    assert_eq!(m.ram_mb, None);
    assert_eq!(m.vcpus, None);
}

#[test]
fn mount_table_without_signature_yields_nothing() {
    let table = "/dev/disk1s1 on / (apfs, local, journaled)\n";
    assert!(check_mount_point_fallback(table).is_none());
    assert!(!check_nfs_mount_exists(table));
    assert!(check_nfs_mount_exists("localhost:/mnt/x on /Volumes/x (nfs)"));
}

#[test]
fn short_signature_line_is_skipped() {
    // carries both markers but fewer than three tokens
    let table = "localhost:/mnt/x/Volumes/x\n";
    assert!(check_mount_point_fallback(table).is_none());
}

#[test]
fn running_vm_without_mount_is_reported_orphaned() {
    let m = get_mount_status_sync(None, Some("/dev/disk1s1 on / (apfs)\n"), true);
    assert!(!m.mounted);
    assert!(m.vm_running);
    assert!(m.orphaned_instance);
    assert!(m.device.is_none());

    let clear = get_mount_status_sync(None, None, false);
    assert!(!clear.mounted);
    assert!(!clear.vm_running);
    assert!(!clear.orphaned_instance);
}

#[test]
fn probe_interpretation_needs_success_and_output() {
    assert!(probe_running(&ProbeOutput { stdout: b"1234\n".to_vec(), success: true }));
    assert!(!probe_running(&ProbeOutput { stdout: Vec::new(), success: true }));
    assert!(!probe_running(&ProbeOutput { stdout: b"1234\n".to_vec(), success: false }));
}

#[test]
fn cached_vm_judgment_follows_probe_freshness() {
    let mut cache = CommandCache::new();
    // no probes cached: the cache cannot decide
    assert_eq!(is_vm_running_cached(&cache, 1000), None);

    // a fresh positive exact-name probe decides alone
    cache.insert(
        "pgrep_krun".to_string(),
        ProbeOutput { stdout: b"77\n".to_vec(), success: true },
        1000,
    );
    assert_eq!(is_vm_running_cached(&cache, 1200), Some(true));

    // a fresh negative exact-name probe needs the pattern probe
    cache.insert(
        "pgrep_krun".to_string(),
        ProbeOutput { stdout: Vec::new(), success: false },
        2000,
    );
    assert_eq!(is_vm_running_cached(&cache, 2100), None);
    cache.insert(
        "pgrep_libkrun".to_string(),
        ProbeOutput { stdout: b"78\n".to_vec(), success: true },
        2000,
    );
    assert_eq!(is_vm_running_cached(&cache, 2100), Some(true));

    // both probes stale: the cache cannot decide any more
    assert_eq!(is_vm_running_cached(&cache, 2600), None);
}
