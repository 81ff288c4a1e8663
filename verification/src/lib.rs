//! Backend engine for a desktop utility that mounts Linux-formatted disks
//! through an external virtualization-backed helper tool.
//!
//! The library holds the verified core: a time- and size-bounded cache for
//! the outputs of repeated OS probe commands, the decision logic of the
//! privileged-execution bridge (argument construction, timeout polling and
//! failure classification), and the reconciliation engine that answers
//! "what is mounted and is the VM alive" from an authoritative control
//! channel with probe-derived fallbacks.  All I/O (process spawning, socket
//! reads, file handling) lives outside the library and hands plain values
//! in and out.

use vstd::prelude::*;

mod cache;
mod cli;
mod config;
mod disks;
mod elevate;
mod probe;
mod settle;
mod status;
mod text;
mod validate;

pub use cache::CacheEntry;
pub use cache::CommandCache;
pub use cache::ProbeOutput;
pub use config::fix_unquoted_strings;
pub use config::is_numeric_literal;
pub use config::is_valid_log_level;
pub use config::log_level_name;
pub use config::u32_to_dec;
pub use config::update_config_commands;
pub use config::AppConfig;
pub use config::MAX_RAM_MB;
pub use config::MAX_VCPUS;
pub use config::MIN_RAM_MB;
pub use config::MIN_VCPUS;
pub use cli::parse_image_list;
pub use cli::parse_package_list;
pub use cli::parse_version_output;
pub use cli::VmImage;
pub use cli::version_mismatch;
pub use cli::CliStatus;
pub use probe::is_vm_running_cached;
pub use probe::probe_running;
pub use disks::check_filesystem_support;
pub use disks::extract_parenthesized_info;
pub use disks::get_system_mounts;
pub use disks::is_linux_native_fs;
pub use disks::parse_diskutil_info;
pub use disks::parse_disk_list_output;
pub use disks::update_mount_status;
pub use disks::apply_diskutil_results;
pub use disks::partitions_needing_diskutil;
pub use disks::update_supported_flag;
pub use disks::parse_partition_line;
pub use disks::parse_type_and_name;
pub use disks::Disk;
pub use disks::DiskListResult;
pub use disks::DiskType;
pub use disks::Partition;
pub use elevate::ChildPoll;
pub use elevate::ElevatedOperation;
pub use elevate::ElevatedStep;
pub use elevate::ExecError;
pub use elevate::build_sudo_args;
pub use elevate::classify_direct_exit;
pub use elevate::classify_elevated_exit;
pub use elevate::poll_elevated;
pub use elevate::COMMAND_TIMEOUT_SECS;
pub use elevate::MOUNT_TIMEOUT_SECS;
pub use elevate::POLL_INTERVAL_MS;
pub use settle::SettleStep;
pub use settle::build_mount_args;
pub use settle::eject_settle_step;
pub use settle::lemma_settle_exhaustion;
pub use settle::mount_failure_result;
pub use settle::mount_settle_step;
pub use settle::settle_step;
pub use settle::unmount_settle_step;
pub use settle::EJECT_SETTLE_ATTEMPTS;
pub use settle::EJECT_SETTLE_INTERVAL_MS;
pub use settle::MOUNT_SETTLE_ATTEMPTS;
pub use settle::MOUNT_SETTLE_INTERVAL_MS;
pub use status::MountInfo;
pub use status::RuntimeInfo;
pub use status::check_mount_point_fallback;
pub use status::check_nfs_mount_exists;
pub use status::get_mount_status_sync;
pub use status::status_from_runtime_info;
pub use status::try_socket_status;
pub use status::MAX_CACHE_AGE_MS;
pub use status::MOUNT_CACHE_DURATION_MS;
pub use status::PGREP_CACHE_DURATION_MS;
pub use validate::build_package_command;
pub use validate::validate_device_path;
pub use validate::validate_image_name;
pub use validate::validate_package_name;
pub use text::str_contains;
pub use text::str_contains_ci;
pub use text::str_eq;
pub use text::str_starts_with;
pub use text::str_trim;

verus! {

/// Upper bound on cache entries; inserts beyond it evict the oldest entry.
pub const MAX_CACHE_ENTRIES: usize = 50;

} // verus!
