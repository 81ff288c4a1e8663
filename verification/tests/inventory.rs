use anylinuxfs_core::apply_diskutil_results;
use anylinuxfs_core::check_filesystem_support;
use anylinuxfs_core::extract_parenthesized_info;
use anylinuxfs_core::get_system_mounts;
use anylinuxfs_core::is_linux_native_fs;
use anylinuxfs_core::is_valid_log_level;
use anylinuxfs_core::log_level_name;
use anylinuxfs_core::parse_disk_list_output;
use anylinuxfs_core::parse_diskutil_info;
use anylinuxfs_core::parse_image_list;
use anylinuxfs_core::parse_package_list;
use anylinuxfs_core::parse_partition_line;
use anylinuxfs_core::parse_version_output;
use anylinuxfs_core::partitions_needing_diskutil;
use anylinuxfs_core::u32_to_dec;
use anylinuxfs_core::update_config_commands;
use anylinuxfs_core::update_mount_status;
use anylinuxfs_core::update_supported_flag;
use anylinuxfs_core::validate_device_path;
use anylinuxfs_core::validate_image_name;
use anylinuxfs_core::validate_package_name;
use anylinuxfs_core::build_package_command;
use anylinuxfs_core::version_mismatch;
use anylinuxfs_core::DiskType;

const LISTING: &str = "/dev/disk6 (external, physical):\n   #:                       TYPE NAME                    SIZE       IDENTIFIER\n   0:      GUID_partition_scheme                        *62.5 GB    disk6\n   1:       Microsoft Basic Data NO NAME                 47.2 GB    disk6s1\n   2:                       ext4 linuxroot               15.0 GB    disk6s2\nraid:disk10s1:disk11s1 (Linux RAID):\n   0:                       ext4 bigraid                 2.0 TB     disk10s1:disk11s1\n";

#[test]
fn listing_parses_into_disks_and_partitions() {
    let r = parse_disk_list_output(LISTING);
    assert!(!r.has_supported_partitions);
    assert!(!r.used_admin_mode);
    assert_eq!(r.disks.len(), 2);

    let d0 = &r.disks[0];
    assert_eq!(d0.device, "/dev/disk6");
    assert_eq!(d0.size, "62.5 GB");
    assert_eq!(d0.model.as_deref(), Some("external, physical"));
    assert!(d0.is_external);
    assert_eq!(d0.disk_type, DiskType::Normal);
    assert_eq!(d0.partitions.len(), 2);
    assert_eq!(d0.partitions[0].device, "/dev/disk6s1");
    assert_eq!(d0.partitions[0].size, "47.2 GB");
    assert_eq!(d0.partitions[0].filesystem, "Microsoft Basic Data");
    assert_eq!(d0.partitions[0].label.as_deref(), Some("NO NAME"));
    assert!(!d0.partitions[0].encrypted);
    assert_eq!(d0.partitions[1].device, "/dev/disk6s2");
    assert_eq!(d0.partitions[1].filesystem, "ext4");
    assert_eq!(d0.partitions[1].label.as_deref(), Some("linuxroot"));

    let d1 = &r.disks[1];
    assert_eq!(d1.device, "raid:disk10s1:disk11s1");
    assert_eq!(d1.size, "2.0 TB");
    assert_eq!(d1.disk_type, DiskType::Raid);
    assert!(!d1.is_external);
    assert_eq!(d1.partitions.len(), 1);
    assert_eq!(d1.partitions[0].device, "raid:disk10s1:disk11s1");
    assert_eq!(d1.partitions[0].filesystem, "ext4");
}

#[test]
fn annotation_passes_mark_mounts_and_support() {
    let mut r = parse_disk_list_output(LISTING);

    let mounts = vec![("/dev/disk6s1".to_string(), "/Volumes/NO NAME".to_string())];
    update_mount_status(&mut r, &mounts);
    assert!(r.disks[0].partitions[0].mounted_by_system);
    assert_eq!(
        r.disks[0].partitions[0].system_mount_point.as_deref(),
        Some("/Volumes/NO NAME")
    );
    assert!(!r.disks[0].partitions[1].mounted_by_system);

    let ids = partitions_needing_diskutil(&r);
    assert_eq!(ids, vec!["disk6s1".to_string()]);

    let results = vec![(
        "disk6s1".to_string(),
        "NTFS".to_string(),
        true,
        Some("NTFS via ntfs-3g".to_string()),
    )];
    apply_diskutil_results(&mut r, &results);
    assert_eq!(r.disks[0].partitions[0].filesystem, "NTFS");
    assert!(r.disks[0].partitions[0].supported);
    assert_eq!(
        r.disks[0].partitions[0].support_note.as_deref(),
        Some("NTFS via ntfs-3g")
    );
    assert!(r.disks[0].partitions[1].supported);
    assert_eq!(r.disks[0].partitions[1].support_note, None);
    assert!(r.disks[1].partitions[0].supported);

    update_supported_flag(&mut r, true);
    assert!(r.has_supported_partitions);
    assert!(r.used_admin_mode);
}

#[test]
fn flag_is_clear_when_everything_is_mounted_or_unsupported() {
    let mut r = parse_disk_list_output("/dev/disk9 (internal):\n   1: apfs System 100.0 GB disk9s1\n");
    let mounts = vec![("/dev/disk9s1".to_string(), "/".to_string())];
    update_mount_status(&mut r, &mounts);
    update_supported_flag(&mut r, false);
    assert!(!r.has_supported_partitions);
    assert!(!r.used_admin_mode);
}

#[test]
fn partition_line_grammar() {
    let p = parse_partition_line(
        "Microsoft Basic Data NO NAME                 47.2 GB    disk6s1",
        &DiskType::Normal,
    )
    .unwrap();
    assert_eq!(p.device, "/dev/disk6s1");
    assert_eq!(p.size, "47.2 GB");
    assert_eq!(p.filesystem, "Microsoft Basic Data");
    assert_eq!(p.label.as_deref(), Some("NO NAME"));
    assert!(p.supported);
    assert!(!p.mounted_by_system);

    // the size marker is stripped off the number
    let starred = parse_partition_line("ext4 root *7.5 GB disk6s5", &DiskType::Normal).unwrap();
    assert_eq!(starred.size, "7.5 GB");
    assert_eq!(starred.label.as_deref(), Some("root"));

    // encryption markers are read from the type
    let luks = parse_partition_line("crypto_LUKS vault 1.0 GB disk7s2", &DiskType::Normal).unwrap();
    assert!(luks.encrypted);

    // too few tokens mean nothing
    assert!(parse_partition_line("7.5 GB", &DiskType::Normal).is_none());

    // virtual volumes get their own device prefix
    let lvm = parse_partition_line("ext4 lv0 5.0 GB vg0-lv0", &DiskType::Lvm).unwrap();
    assert_eq!(lvm.device, "lvm:vg0-lv0");
}

#[test]
fn parenthesized_header_info() {
    let (info, external) = extract_parenthesized_info("/dev/disk6 (external, physical):");
    assert_eq!(info.as_deref(), Some("external, physical"));
    assert!(external);

    let (info2, external2) = extract_parenthesized_info("/dev/disk1 (internal):");
    assert_eq!(info2.as_deref(), Some("internal"));
    assert!(!external2);

    assert_eq!(extract_parenthesized_info("no parens here"), (None, false));
    assert_eq!(extract_parenthesized_info(") reversed ("), (None, false));
}

#[test]
fn system_mounts_are_read_from_the_table() {
    let table = "/dev/disk6s1 on /Volumes/NO NAME (msdos, local, nodev)\nmap auto_home on /System/Volumes/Data/home (autofs, automounted)\nbroken line without separator\n";
    let mounts = get_system_mounts(table);
    assert_eq!(
        mounts,
        vec![
            ("/dev/disk6s1".to_string(), "/Volumes/NO NAME".to_string()),
            (
                "map auto_home".to_string(),
                "/System/Volumes/Data/home".to_string()
            ),
        ]
    );
}

#[test]
fn filesystem_support_judgments() {
    assert_eq!(check_filesystem_support("ext4"), (true, None));
    assert_eq!(check_filesystem_support("EXT4 1.0"), (true, None));
    assert_eq!(
        check_filesystem_support("Linux Filesystem"),
        (
            true,
            Some("Linux partition (use admin mode for exact fs type)".to_string())
        )
    );
    assert_eq!(check_filesystem_support("FAT32"), (true, None));
    assert_eq!(
        check_filesystem_support("NTFS"),
        (true, Some("NTFS via ntfs-3g".to_string()))
    );
    assert_eq!(
        check_filesystem_support("MS-DOS"),
        (false, Some("Unknown FAT variant - may not mount".to_string()))
    );
    assert_eq!(
        check_filesystem_support("APFS"),
        (false, Some("APFS not supported by Linux".to_string()))
    );
    assert_eq!(
        check_filesystem_support("Mac OS Extended"),
        (false, Some("HFS/HFS+ has limited Linux support".to_string()))
    );
    assert_eq!(
        check_filesystem_support(""),
        (false, Some("Unknown filesystem".to_string()))
    );
    assert_eq!(
        check_filesystem_support("bcachefs"),
        (true, Some("Unverified: bcachefs".to_string()))
    );

    assert!(is_linux_native_fs("ext4 (version 1.0)"));
    assert!(is_linux_native_fs("Linux Filesystem"));
    assert!(is_linux_native_fs("NTFS"));
    assert!(!is_linux_native_fs("apfs"));
    assert!(!is_linux_native_fs("Microsoft Basic Data"));
}

#[test]
fn diskutil_report_yields_personality_and_judgment() {
    let report = "   Device Identifier:         disk6s1\n   File System Personality:   APFS\n   Type (Bundle):             apfs\n";
    let (personality, supported, note) = parse_diskutil_info(report);
    assert_eq!(personality, "APFS");
    assert!(!supported);
    assert_eq!(note.as_deref(), Some("APFS not supported by Linux"));

    let (none_personality, none_supported, none_note) = parse_diskutil_info("no marker here\n");
    assert_eq!(none_personality, "");
    assert!(!none_supported);
    assert_eq!(none_note.as_deref(), Some("Unknown filesystem"));
}

#[test]
fn device_path_validation() {
    assert!(validate_device_path("/dev/disk5s1").is_ok());
    assert!(validate_device_path("raid:disk10s1:disk11s1").is_ok());
    assert!(validate_device_path("lvm:vg-lv_0").is_ok());
    assert_eq!(
        validate_device_path(""),
        Err("Device path is required".to_string())
    );
    assert_eq!(
        validate_device_path("/dev/../etc/passwd"),
        Err("Device path cannot contain '..'".to_string())
    );
    assert_eq!(
        validate_device_path("disk5s1"),
        Err("Device path must start with /dev/, raid:, or lvm:".to_string())
    );
    assert_eq!(
        validate_device_path("/dev/disk5;rm"),
        Err("Device path contains invalid characters".to_string())
    );
    assert_eq!(
        validate_device_path("raid:disk/1"),
        Err("Device path contains invalid characters".to_string())
    );
}

#[test]
fn image_name_validation() {
    assert!(validate_image_name("alpine-3.19").is_ok());
    assert!(validate_image_name("freebsd_15.0").is_ok());
    assert_eq!(
        validate_image_name(""),
        Err("Image name cannot be empty".to_string())
    );
    assert_eq!(
        validate_image_name("a/b"),
        Err("Invalid image name 'a/b': contains invalid characters".to_string())
    );
    assert_eq!(
        validate_image_name("a..b"),
        Err("Image name cannot contain '..'".to_string())
    );
}

#[test]
fn package_name_validation() {
    assert!(validate_package_name("g++").is_ok());
    assert!(validate_package_name("curl@edge").is_ok());
    assert_eq!(
        validate_package_name(""),
        Err("Package name cannot be empty".to_string())
    );
    let long = "a".repeat(129);
    assert_eq!(
        validate_package_name(&long),
        Err("Package name too long".to_string())
    );
    assert_eq!(
        validate_package_name("-rf"),
        Err("Package name cannot start with '-'".to_string())
    );
    assert_eq!(
        validate_package_name("bad name"),
        Err("Package name 'bad name' contains invalid characters".to_string())
    );
}

#[test]
fn package_commands_are_assembled_after_validation() {
    let pkgs = vec!["curl".to_string(), "git".to_string()];
    assert_eq!(
        build_package_command(true, &pkgs),
        Ok(vec![
            "apk".to_string(),
            "add".to_string(),
            "curl".to_string(),
            "git".to_string(),
        ])
    );
    assert_eq!(
        build_package_command(false, &pkgs),
        Ok(vec![
            "apk".to_string(),
            "del".to_string(),
            "curl".to_string(),
            "git".to_string(),
        ])
    );
    assert_eq!(
        build_package_command(true, &Vec::new()),
        Err("No packages specified".to_string())
    );
    let bad = vec!["ok".to_string(), "-rf".to_string()];
    assert_eq!(
        build_package_command(true, &bad),
        Err("Package name cannot start with '-'".to_string())
    );
}

#[test]
fn config_update_commands_and_bounds() {
    let cmds = update_config_commands(Some(2048), Some(4), Some("info".to_string())).unwrap();
    assert_eq!(
        cmds,
        vec![
            vec!["config".to_string(), "-r".to_string(), "2048".to_string()],
            vec!["config".to_string(), "-n".to_string(), "4".to_string()],
            vec!["config".to_string(), "-l".to_string(), "info".to_string()],
        ]
    );
    assert_eq!(update_config_commands(None, None, None), Ok(Vec::new()));
    assert_eq!(
        update_config_commands(Some(100), None, None),
        Err("Invalid RAM value: 100MB. Must be between 256 and 65536 MB.".to_string())
    );
    assert_eq!(
        update_config_commands(None, Some(64), None),
        Err("Invalid vCPU value: 64. Must be between 1 and 32.".to_string())
    );
    assert_eq!(
        update_config_commands(None, None, Some("loud".to_string())),
        Err("Invalid log level: 'loud'. Valid options: [\"off\", \"error\", \"warn\", \"info\", \"debug\", \"trace\"]".to_string())
    );
}

#[test]
fn numeric_log_levels_and_decimal_rendering() {
    assert_eq!(log_level_name(0), Some("off"));
    assert_eq!(log_level_name(3), Some("info"));
    assert_eq!(log_level_name(5), Some("trace"));
    assert_eq!(log_level_name(6), None);
    assert_eq!(log_level_name(-1), None);
    assert!(is_valid_log_level("warn"));
    assert!(!is_valid_log_level("verbose"));

    assert_eq!(u32_to_dec(0), "0");
    assert_eq!(u32_to_dec(42), "42");
    assert_eq!(u32_to_dec(4_294_967_295), "4294967295");
}

#[test]
fn version_output_and_mismatch() {
    assert_eq!(parse_version_output("anylinuxfs 0.10.2\n"), "0.10.2");
    assert_eq!(parse_version_output("  0.9.1  "), "0.9.1");

    assert!(!version_mismatch(None, Some("1.0")));
    assert!(version_mismatch(Some("1.0"), None));
    assert!(!version_mismatch(Some("1.0\n"), Some("1.0")));
    assert!(version_mismatch(Some("1.0"), Some("1.1")));
}

#[test]
fn image_listing_is_read_line_by_line() {
    let images = parse_image_list("alpine-3.19 (installed)\n\n  freebsd-15.0  \n");
    assert_eq!(images.len(), 2);
    assert_eq!(images[0].name, "alpine-3.19");
    assert!(images[0].installed);
    assert_eq!(images[1].name, "freebsd-15.0");
    assert!(!images[1].installed);
}

#[test]
fn numeric_literal_grammar() {
    for good in ["42", "-3", "+1.5", "2e10", "1.5e-3", ".5", "5.", "007", "inf", "NaN", "Infinity"] {
        assert!(anylinuxfs_core::is_numeric_literal(good), "{} should read as a number", good);
    }
    for bad in ["", ".", "e5", "1e", "1e+", "--1", "1.2.3", "0x10", "off", "1 2"] {
        assert!(!anylinuxfs_core::is_numeric_literal(bad), "{} should not read as a number", bad);
    }
}

#[test]
fn config_rewrite_quotes_bare_string_values() {
    let input = "[krun]\nram_size_mib = 2048\nlog_level = off\nname = \"quoted\"\nflag = true\nratio = 1.5\nneg = -3\n# comment\n\npath = /tmp/x";
    let fixed = anylinuxfs_core::fix_unquoted_strings(input);
    assert_eq!(
        fixed,
        "[krun]\nram_size_mib = 2048\nlog_level = \"off\"\nname = \"quoted\"\nflag = true\nratio = 1.5\nneg = -3\n# comment\n\npath = \"/tmp/x\""
    );
    // a line without a separator stays as it was
    assert_eq!(anylinuxfs_core::fix_unquoted_strings("just text"), "just text");
}

#[test]
fn package_listing_is_trimmed_and_filtered() {
    assert_eq!(
        parse_package_list(" curl \n\ngit\n"),
        vec!["curl".to_string(), "git".to_string()]
    );
    assert!(parse_package_list("\n\n").is_empty());
}
