//! Disk inventory: the helper's textual disk/partition listing turned into
//! structured records, annotated with live mount state and
//! filesystem-support judgments.
//!
//! The helper's `list` call, the mount-table probe and the host's disk-info
//! utility all run in the application; everything that reads their text —
//! the listing grammar, the mount-table scan, the personality extraction
//! and the support rules — is verified here.

use vstd::prelude::*;

use crate::status::opt_str_view;
use crate::text::char_index;
use crate::text::contains_seq;
use crate::text::contains_ci;
use crate::text::find_char;
use crate::text::find_str;
use crate::text::lemma_char_index_unique;
use crate::text::lemma_pat_index_found;
use crate::text::lemma_pat_index_none;
use crate::text::lines_of;
use crate::text::matches_at;
use crate::text::pat_index;
use crate::text::seq_eq_ci;
use crate::text::split_lines;
use crate::text::split_ws;
use crate::text::tokens_of;
use crate::text::join_sp;
use crate::text::join_spaces;
use crate::text::strip_leading;
use crate::text::str_strip_leading;
use crate::text::str_strip_trailing;
use crate::text::str_strip_prefix_all;
use crate::text::strip_prefix_all;
use crate::text::str_ends_with;
use crate::text::strip_trailing;
use crate::text::str_all_digits;
use crate::text::all_digits;
use crate::text::digits_val;
use crate::text::parse_u32;
use crate::text::str_starts_with;
use crate::text::views_of_strings;
use crate::text::str_contains;
use crate::text::str_contains_ci;
use crate::text::str_eq_ci;
use crate::text::str_trim;
use crate::text::trim_seq;

verus! {

/// How a listed volume is addressed: a plain device, a RAID set, or an LVM
/// volume.
#[derive(Debug, Clone, PartialEq, Eq, Structural)]
pub enum DiskType {
    Normal,
    Raid,
    Lvm,
}

/// One mountable partition of a listed disk.
pub struct Partition {
    pub device: String,
    pub size: String,
    pub filesystem: String,
    pub label: Option<String>,
    pub encrypted: bool,
    pub mounted_by_system: bool,
    pub system_mount_point: Option<String>,
    pub supported: bool,
    pub support_note: Option<String>,
}

/// Ghost image of `Partition`, over character sequences.
pub struct PartitionView {
    pub device: Seq<char>,
    pub size: Seq<char>,
    pub filesystem: Seq<char>,
    pub label: Option<Seq<char>>,
    pub encrypted: bool,
    pub mounted_by_system: bool,
    pub system_mount_point: Option<Seq<char>>,
    pub supported: bool,
    pub support_note: Option<Seq<char>>,
}

impl View for Partition {
    type V = PartitionView;

    open spec fn view(&self) -> PartitionView {
        PartitionView {
            device: self.device@,
            size: self.size@,
            filesystem: self.filesystem@,
            label: opt_str_view(self.label),
            encrypted: self.encrypted,
            mounted_by_system: self.mounted_by_system,
            system_mount_point: opt_str_view(self.system_mount_point),
            supported: self.supported,
            support_note: opt_str_view(self.support_note),
        }
    }
}

/// One listed disk with its partitions.
pub struct Disk {
    pub device: String,
    pub size: String,
    pub model: Option<String>,
    pub is_external: bool,
    pub disk_type: DiskType,
    pub partitions: Vec<Partition>,
}

/// Ghost image of `Disk`.
pub struct DiskView {
    pub device: Seq<char>,
    pub size: Seq<char>,
    pub model: Option<Seq<char>>,
    pub is_external: bool,
    pub disk_type: DiskType,
    pub partitions: Seq<PartitionView>,
}

/// The views of a sequence of partitions.
pub open spec fn views_of_partitions(v: Seq<Partition>) -> Seq<PartitionView> {
    Seq::new(v.len(), |i: int| v[i]@)
}

impl View for Disk {
    type V = DiskView;

    open spec fn view(&self) -> DiskView {
        DiskView {
            device: self.device@,
            size: self.size@,
            model: opt_str_view(self.model),
            is_external: self.is_external,
            disk_type: self.disk_type,
            partitions: views_of_partitions(self.partitions@),
        }
    }
}

/// The full listing: the disks, whether any partition is both supported and
/// not already mounted by the system, and whether the listing ran elevated.
pub struct DiskListResult {
    pub disks: Vec<Disk>,
    pub has_supported_partitions: bool,
    pub used_admin_mode: bool,
}

/// Ghost image of `DiskListResult`.
pub struct DiskListView {
    pub disks: Seq<DiskView>,
    pub has_supported_partitions: bool,
    pub used_admin_mode: bool,
}

/// The views of a sequence of disks.
pub open spec fn views_of_disks(v: Seq<Disk>) -> Seq<DiskView> {
    Seq::new(v.len(), |i: int| v[i]@)
}

impl View for DiskListResult {
    type V = DiskListView;

    open spec fn view(&self) -> DiskListView {
        DiskListView {
            disks: views_of_disks(self.disks@),
            has_supported_partitions: self.has_supported_partitions,
            used_admin_mode: self.used_admin_mode,
        }
    }
}

/// A filesystem name the helper detects natively as a Linux-side
/// filesystem, up to ASCII case.
pub open spec fn linux_native_fs(fs: Seq<char>) -> bool {
    ||| contains_ci(fs, "ext4"@)
    ||| contains_ci(fs, "ext3"@)
    ||| contains_ci(fs, "ext2"@)
    ||| contains_ci(fs, "btrfs"@)
    ||| contains_ci(fs, "xfs"@)
    ||| contains_ci(fs, "f2fs"@)
    ||| contains_ci(fs, "reiserfs"@)
    ||| contains_ci(fs, "zfs"@)
    ||| contains_ci(fs, "ntfs"@)
    ||| contains_ci(fs, "exfat"@)
    ||| seq_eq_ci(fs, "linux filesystem"@)
}

/// Whether the filesystem name is one the Linux side handles natively.
pub fn is_linux_native_fs(fs: &str) -> (r: bool)
    ensures
        r == linux_native_fs(fs@),
{
    str_contains_ci(fs, "ext4") || str_contains_ci(fs, "ext3") || str_contains_ci(fs, "ext2")
        || str_contains_ci(fs, "btrfs") || str_contains_ci(fs, "xfs") || str_contains_ci(
        fs,
        "f2fs",
    ) || str_contains_ci(fs, "reiserfs") || str_contains_ci(fs, "zfs") || str_contains_ci(
        fs,
        "ntfs",
    ) || str_contains_ci(fs, "exfat") || str_eq_ci(fs, "linux filesystem")
}

/// The support judgment for a filesystem name: whether a mount can be
/// attempted, and an optional note for the user.  Checked in order:
/// Linux-native names, the generic GPT Linux label, FAT variants, NTFS, the
/// bare MS-DOS label, Apple filesystems, unknown, and finally an
/// optimistic default carrying the unverified name.
pub open spec fn fs_support(fs: Seq<char>) -> (bool, Option<Seq<char>>) {
    if contains_ci(fs, "ext4"@) || contains_ci(fs, "ext3"@) || contains_ci(fs, "ext2"@)
        || contains_ci(fs, "btrfs"@) || contains_ci(fs, "xfs"@) || contains_ci(fs, "f2fs"@)
        || contains_ci(fs, "reiserfs"@) {
        (true, None)
    } else if seq_eq_ci(fs, "linux filesystem"@) {
        (true, Some("Linux partition (use admin mode for exact fs type)"@))
    } else if contains_ci(fs, "fat32"@) || contains_ci(fs, "fat16"@) || contains_ci(
        fs,
        "exfat"@,
    ) {
        (true, None)
    } else if contains_ci(fs, "ntfs"@) {
        (true, Some("NTFS via ntfs-3g"@))
    } else if seq_eq_ci(fs, "ms-dos"@) {
        (false, Some("Unknown FAT variant - may not mount"@))
    } else if contains_ci(fs, "apfs"@) {
        (false, Some("APFS not supported by Linux"@))
    } else if contains_ci(fs, "hfs"@) || contains_ci(fs, "mac os"@) {
        (false, Some("HFS/HFS+ has limited Linux support"@))
    } else if fs.len() == 0 || seq_eq_ci(fs, "unknown"@) {
        (false, Some("Unknown filesystem"@))
    } else {
        (true, Some("Unverified: "@ + fs))
    }
}

/// Judges support for a filesystem name, exactly as `fs_support` describes.
pub fn check_filesystem_support(fs: &str) -> (r: (bool, Option<String>))
    ensures
        r.0 == fs_support(fs@).0,
        opt_str_view(r.1) == fs_support(fs@).1,
{
    if str_contains_ci(fs, "ext4") || str_contains_ci(fs, "ext3") || str_contains_ci(fs, "ext2")
        || str_contains_ci(fs, "btrfs") || str_contains_ci(fs, "xfs") || str_contains_ci(
        fs,
        "f2fs",
    ) || str_contains_ci(fs, "reiserfs") {
        (true, None)
    } else if str_eq_ci(fs, "linux filesystem") {
        (true, Some(String::from_str("Linux partition (use admin mode for exact fs type)")))
    } else if str_contains_ci(fs, "fat32") || str_contains_ci(fs, "fat16") || str_contains_ci(
        fs,
        "exfat",
    ) {
        (true, None)
    } else if str_contains_ci(fs, "ntfs") {
        (true, Some(String::from_str("NTFS via ntfs-3g")))
    } else if str_eq_ci(fs, "ms-dos") {
        (false, Some(String::from_str("Unknown FAT variant - may not mount")))
    } else if str_contains_ci(fs, "apfs") {
        (false, Some(String::from_str("APFS not supported by Linux")))
    } else if str_contains_ci(fs, "hfs") || str_contains_ci(fs, "mac os") {
        (false, Some(String::from_str("HFS/HFS+ has limited Linux support")))
    } else if fs.unicode_len() == 0 || str_eq_ci(fs, "unknown") {
        (false, Some(String::from_str("Unknown filesystem")))
    } else {
        (true, Some(String::from_str("Unverified: ").concat(fs)))
    }
}

/// What a disk header line holds in parentheses, and whether it marks the
/// disk as external: the text between the first opening and the first
/// closing parenthesis, taken only when they are ordered.
pub open spec fn paren_info(l: Seq<char>) -> (Option<Seq<char>>, bool) {
    let a = char_index(l, '(', 0);
    let b = char_index(l, ')', 0);
    if a < l.len() && b < l.len() && a + 1 <= b {
        let info = l.subrange(a + 1, b);
        (Some(info), contains_ci(info, "external"@))
    } else {
        (None, false)
    }
}

/// Extracts the parenthesized model text of a disk header line and whether
/// it names the disk external.
pub fn extract_parenthesized_info(line: &str) -> (r: (Option<String>, bool))
    ensures
        opt_str_view(r.0) == paren_info(line@).0,
        r.1 == paren_info(line@).1,
{
    let n = line.unicode_len();
    let a_found = find_char(line, '(', 0);
    let b_found = find_char(line, ')', 0);
    proof {
        match a_found {
            Some(i) => lemma_char_index_unique(line@, '(', 0, i as int),
            None => lemma_char_index_unique(line@, '(', 0, line@.len() as int),
        }
        match b_found {
            Some(i) => lemma_char_index_unique(line@, ')', 0, i as int),
            None => lemma_char_index_unique(line@, ')', 0, line@.len() as int),
        }
    }
    if let (Some(a), Some(b)) = (a_found, b_found) {
        if a + 1 <= b {
            let info = line.substring_char(a + 1, b);
            let external = str_contains_ci(info, "external");
            return (Some(String::from_str(info)), external);
        }
    }
    (None, false)
}

/// What one mount-table line contributes to the system-mount list: on a
/// line of the form `<device> on <mount point> (<options>)` the device is
/// the text before the first ` on ` and the mount point the text between it
/// and the first ` (` after it; other lines contribute nothing.
pub open spec fn mount_line_entry(l: Seq<char>) -> Option<(Seq<char>, Seq<char>)> {
    let i = pat_index(l, " on "@, 0);
    if i < l.len() {
        let device = l.take(i);
        let rest = l.skip(i + 4);
        let j = pat_index(rest, " ("@, 0);
        if j < rest.len() {
            Some((device, rest.take(j)))
        } else {
            None
        }
    } else {
        None
    }
}

/// The device/mount-point pairs of the mount table, line by line.
pub open spec fn mounts_of_lines(lines: Seq<Seq<char>>) -> Seq<(Seq<char>, Seq<char>)>
    decreases lines.len(),
{
    if lines.len() == 0 {
        Seq::empty()
    } else {
        (match mount_line_entry(lines[0]) {
            Some(e) => seq![e],
            None => Seq::empty(),
        }) + mounts_of_lines(lines.skip(1))
    }
}

/// The device/mount-point pairs the mount-table probe shows.
pub open spec fn system_mounts_of(t: Seq<char>) -> Seq<(Seq<char>, Seq<char>)> {
    mounts_of_lines(split_lines(t))
}

/// The views of a sequence of owned string pairs.
pub open spec fn views_of_pairs(v: Seq<(String, String)>) -> Seq<(Seq<char>, Seq<char>)> {
    Seq::new(v.len(), |i: int| (v[i].0@, v[i].1@))
}

/// Reads the mount-table probe text into device/mount-point pairs.
#[verifier::loop_isolation(false)]
pub fn get_system_mounts(mount_output: &str) -> (r: Vec<(String, String)>)
    ensures
        views_of_pairs(r@) == system_mounts_of(mount_output@),
{
    let lines = lines_of(mount_output);
    let ghost lviews = split_lines(mount_output@);
    let mut r: Vec<(String, String)> = Vec::new();
    let n = lines.len();
    let mut i: usize = 0;
    proof {
        assert(lviews.skip(0) =~= lviews);
        assert(views_of_pairs(r@) =~= Seq::<(Seq<char>, Seq<char>)>::empty());
    }
    while i < n
        invariant
            0 <= i <= n,
            system_mounts_of(mount_output@) == views_of_pairs(r@) + mounts_of_lines(
                lviews.skip(i as int),
            ),
        decreases n - i,
    {
        let line = &lines[i];
        let ghost lv = lviews[i as int];
        proof {
            assert(line@ == lv);
            assert(lviews.skip(i as int)[0] == lv);
            assert(lviews.skip(i as int).skip(1) =~= lviews.skip(i + 1));
            reveal_strlit(" on ");
            reveal_strlit(" (");
        }
        let ghost prev = r@;
        match find_str(line.as_str(), " on ") {
            Some(p) => {
                proof {
                    lemma_pat_index_found(lv, " on "@, 0, p as int);
                }
                let ln = line.as_str().unicode_len();
                let device = line.as_str().substring_char(0, p);
                let rest = line.as_str().substring_char(p + 4, ln);
                proof {
                    assert(device@ =~= lv.take(p as int));
                    assert(rest@ =~= lv.skip(p + 4));
                }
                match find_str(rest, " (") {
                    Some(q) => {
                        proof {
                            lemma_pat_index_found(rest@, " ("@, 0, q as int);
                        }
                        let point = rest.substring_char(0, q);
                        proof {
                            assert(point@ =~= rest@.take(q as int));
                        }
                        r.push((String::from_str(device), String::from_str(point)));
                        proof {
                            assert(views_of_pairs(r@) =~= views_of_pairs(prev) + seq![
                                (device@, point@),
                            ]);
                            assert(mount_line_entry(lv) == Some((device@, point@)));
                        }
                    },
                    None => {
                        proof {
                            lemma_pat_index_none(rest@, " ("@, 0);
                            assert(mount_line_entry(lv) is None);
                        }
                    },
                }
            },
            None => {
                proof {
                    lemma_pat_index_none(lv, " on "@, 0);
                    assert(mount_line_entry(lv) is None);
                }
            },
        }
        i = i + 1;
    }
    proof {
        assert(lviews.skip(n as int) =~= Seq::<Seq<char>>::empty());
        assert(views_of_pairs(r@) + Seq::<(Seq<char>, Seq<char>)>::empty() =~= views_of_pairs(r@));
    }
    r
}

/// The filesystem personality a disk-info report names: on the first line
/// carrying the personality marker, the text between its first colon and
/// the next one (or the line end), trimmed; empty when no line carries it.
pub open spec fn personality_of_line(l: Seq<char>) -> Seq<char> {
    let i = char_index(l, ':', 0);
    let rest = l.skip(i + 1);
    let j = char_index(rest, ':', 0);
    trim_seq(rest.take(j))
}

/// The personality over the report's lines.
pub open spec fn personality_of_lines(lines: Seq<Seq<char>>) -> Seq<char>
    decreases lines.len(),
{
    if lines.len() == 0 {
        Seq::empty()
    } else if contains_seq(lines[0], "File System Personality:"@) {
        personality_of_line(lines[0])
    } else {
        personality_of_lines(lines.skip(1))
    }
}

/// The personality the whole report names.
pub open spec fn diskutil_personality(t: Seq<char>) -> Seq<char> {
    personality_of_lines(split_lines(t))
}

/// Reads a disk-info report: the filesystem personality it names, with the
/// support judgment for it.
#[verifier::loop_isolation(false)]
pub fn parse_diskutil_info(info: &str) -> (r: (String, bool, Option<String>))
    ensures
        r.0@ == diskutil_personality(info@),
        r.1 == fs_support(diskutil_personality(info@)).0,
        opt_str_view(r.2) == fs_support(diskutil_personality(info@)).1,
{
    let lines = lines_of(info);
    let ghost lviews = split_lines(info@);
    let n = lines.len();
    let mut i: usize = 0;
    proof {
        assert(lviews.skip(0) =~= lviews);
    }
    while i < n
        invariant
            0 <= i <= n,
            diskutil_personality(info@) == personality_of_lines(lviews.skip(i as int)),
        decreases n - i,
    {
        let line = &lines[i];
        let ghost lv = lviews[i as int];
        proof {
            assert(line@ == lv);
            assert(lviews.skip(i as int)[0] == lv);
            assert(lviews.skip(i as int).skip(1) =~= lviews.skip(i + 1));
        }
        if str_contains(line.as_str(), "File System Personality:") {
            let ln = line.as_str().unicode_len();
            let a = match find_char(line.as_str(), ':', 0) {
                Some(a) => a,
                None => {
                    // the marker itself ends in a colon, so one is present
                    proof {
                        reveal_strlit("File System Personality:");
                        let w = choose|w: int| matches_at(lv, "File System Personality:"@, w);
                        assert(lv.subrange(w, w + 24)[23] == lv[w + 23]);
                        assert(false);
                    }
                    ln
                },
            };
            proof {
                lemma_char_index_unique(lv, ':', 0, a as int);
            }
            let rest = line.as_str().substring_char(a + 1, ln);
            proof {
                assert(rest@ =~= lv.skip(a + 1));
            }
            let rn = rest.unicode_len();
            let b = match find_char(rest, ':', 0) {
                Some(b) => b,
                None => rn,
            };
            proof {
                lemma_char_index_unique(rest@, ':', 0, b as int);
            }
            let piece = rest.substring_char(0, b);
            proof {
                assert(piece@ =~= rest@.take(b as int));
            }
            let found = String::from_str(str_trim(piece));
            proof {
                assert(found@ == personality_of_line(lv));
            }
            let judged = check_filesystem_support(found.as_str());
            return (found, judged.0, judged.1);
        }
        proof {
            assert(!contains_seq(lv, "File System Personality:"@));
        }
        i = i + 1;
    }
    let personality = String::new();
    proof {
        assert(lviews.skip(n as int) =~= Seq::<Seq<char>>::empty());
        assert(personality@ =~= Seq::<char>::empty());
    }
    let judged = check_filesystem_support(personality.as_str());
    (personality, judged.0, judged.1)
}

/// The label part after a multi-word type name: the remainder of the joined
/// tokens, trimmed, absent when empty.
pub open spec fn label_after(joined: Seq<char>, tlen: int) -> Option<Seq<char>> {
    let rest = trim_seq(joined.skip(tlen));
    if rest.len() == 0 {
        None
    } else {
        Some(rest)
    }
}

/// The filesystem type and the volume label of a partition line's leading
/// tokens: a known multi-word type name claims its prefix of the joined
/// tokens, the rest is the label; otherwise the first token is the type and
/// the remaining tokens the label; no tokens at all give an unknown type.
pub open spec fn type_and_name_of(tokens: Seq<Seq<char>>) -> (Seq<char>, Option<Seq<char>>) {
    let joined = join_sp(tokens);
    if "Microsoft Basic Data"@.is_prefix_of(joined) {
        ("Microsoft Basic Data"@, label_after(joined, "Microsoft Basic Data"@.len() as int))
    } else if "Microsoft Reserved"@.is_prefix_of(joined) {
        ("Microsoft Reserved"@, label_after(joined, "Microsoft Reserved"@.len() as int))
    } else if "EFI System"@.is_prefix_of(joined) {
        ("EFI System"@, label_after(joined, "EFI System"@.len() as int))
    } else if "Apple APFS"@.is_prefix_of(joined) {
        ("Apple APFS"@, label_after(joined, "Apple APFS"@.len() as int))
    } else if "Apple HFS"@.is_prefix_of(joined) {
        ("Apple HFS"@, label_after(joined, "Apple HFS"@.len() as int))
    } else if "Linux Filesystem"@.is_prefix_of(joined) {
        ("Linux Filesystem"@, label_after(joined, "Linux Filesystem"@.len() as int))
    } else if "GUID_partition_scheme"@.is_prefix_of(joined) {
        ("GUID_partition_scheme"@, label_after(joined, "GUID_partition_scheme"@.len() as int))
    } else if tokens.len() > 0 {
        (
            tokens[0],
            if tokens.len() == 1 {
                None
            } else {
                Some(join_sp(tokens.skip(1)))
            },
        )
    } else {
        ("unknown"@, None)
    }
}

fn multi_word_label(joined: &str, tlen: usize) -> (r: Option<String>)
    requires
        tlen <= joined@.len(),
    ensures
        opt_str_view(r) == label_after(joined@, tlen as int),
{
    let n = joined.unicode_len();
    let rest = str_trim(joined.substring_char(tlen, n));
    proof {
        assert(joined@.subrange(tlen as int, n as int) =~= joined@.skip(tlen as int));
    }
    if rest.unicode_len() == 0 {
        None
    } else {
        Some(String::from_str(rest))
    }
}

/// Splits the leading tokens of a partition line into filesystem type and
/// label, exactly as `type_and_name_of` describes.
pub fn parse_type_and_name(parts: &Vec<String>, upto: usize) -> (r: (String, Option<String>))
    requires
        upto <= parts@.len(),
    ensures
        ({
            let tn = type_and_name_of(views_of_strings(parts@).subrange(0, upto as int));
            r.0@ == tn.0 && opt_str_view(r.1) == tn.1
        }),
{
    let ghost tokens = views_of_strings(parts@).subrange(0, upto as int);
    let joined = join_spaces(parts, 0, upto);
    if str_starts_with(joined.as_str(), "Microsoft Basic Data") {
        proof {
            reveal_strlit("Microsoft Basic Data");
        }
        let label = multi_word_label(joined.as_str(), 20);
        return (String::from_str("Microsoft Basic Data"), label);
    }
    if str_starts_with(joined.as_str(), "Microsoft Reserved") {
        proof {
            reveal_strlit("Microsoft Reserved");
        }
        let label = multi_word_label(joined.as_str(), 18);
        return (String::from_str("Microsoft Reserved"), label);
    }
    if str_starts_with(joined.as_str(), "EFI System") {
        proof {
            reveal_strlit("EFI System");
        }
        let label = multi_word_label(joined.as_str(), 10);
        return (String::from_str("EFI System"), label);
    }
    if str_starts_with(joined.as_str(), "Apple APFS") {
        proof {
            reveal_strlit("Apple APFS");
        }
        let label = multi_word_label(joined.as_str(), 10);
        return (String::from_str("Apple APFS"), label);
    }
    if str_starts_with(joined.as_str(), "Apple HFS") {
        proof {
            reveal_strlit("Apple HFS");
        }
        let label = multi_word_label(joined.as_str(), 9);
        return (String::from_str("Apple HFS"), label);
    }
    if str_starts_with(joined.as_str(), "Linux Filesystem") {
        proof {
            reveal_strlit("Linux Filesystem");
        }
        let label = multi_word_label(joined.as_str(), 16);
        return (String::from_str("Linux Filesystem"), label);
    }
    if str_starts_with(joined.as_str(), "GUID_partition_scheme") {
        proof {
            reveal_strlit("GUID_partition_scheme");
        }
        let label = multi_word_label(joined.as_str(), 21);
        return (String::from_str("GUID_partition_scheme"), label);
    }
    if upto > 0 {
        let first = parts[0].clone();
        if upto == 1 {
            (first, None)
        } else {
            let label = join_spaces(parts, 1, upto);
            proof {
                assert(tokens.skip(1) =~= views_of_strings(parts@).subrange(1, upto as int));
            }
            (first, Some(label))
        }
    } else {
        (String::from_str("unknown"), None)
    }
}

/// The view of an optional parsed partition.
pub open spec fn opt_part_view(r: Option<Partition>) -> Option<PartitionView> {
    match r {
        Some(p) => Some(p@),
        None => None,
    }
}

/// The device prefix a partition identifier gets, by volume kind.
pub open spec fn device_prefix(dt: DiskType) -> Seq<char> {
    match dt {
        DiskType::Normal => "/dev/"@,
        DiskType::Raid => "raid:"@,
        DiskType::Lvm => "lvm:"@,
    }
}

/// What a partition line of the listing means.  The identifier is the last
/// token; the size is the two tokens before it, with a leading `*` or `+`
/// marker stripped off the number; the tokens before those name the type
/// and label; encryption markers are read from the type and the whole line.
/// Lines of fewer than three tokens mean nothing.
pub open spec fn partition_of_line(l: Seq<char>, dt: DiskType) -> Option<PartitionView> {
    let parts = split_ws(l);
    if parts.len() < 3 {
        None
    } else {
        let n = parts.len() as int;
        let tn = type_and_name_of(parts.take(n - 3));
        Some(
            PartitionView {
                device: device_prefix(dt) + parts[n - 1],
                size: strip_leading(strip_leading(parts[n - 3], '*'), '+') + " "@ + parts[n - 2],
                filesystem: tn.0,
                label: tn.1,
                encrypted: contains_ci(tn.0, "luks"@) || contains_ci(tn.0, "bitlocker"@)
                    || contains_ci(l, "encrypted"@),
                mounted_by_system: false,
                system_mount_point: None,
                supported: true,
                support_note: None,
            },
        )
    }
}

/// Reads one partition line, exactly as `partition_of_line` describes.
pub fn parse_partition_line(line: &str, disk_type: &DiskType) -> (r: Option<Partition>)
    ensures
        opt_part_view(r) == partition_of_line(line@, *disk_type),
{
    let tokens = tokens_of(line);
    let n = tokens.len();
    if n < 3 {
        return None;
    }
    let s1 = str_strip_leading(tokens[n - 3].as_str(), '*');
    let s2 = str_strip_leading(s1, '+');
    let size = String::from_str(s2).concat(" ").concat(tokens[n - 2].as_str());
    let tn = parse_type_and_name(&tokens, n - 3);
    proof {
        assert(views_of_strings(tokens@).subrange(0, n - 3) =~= split_ws(line@).take(n - 3));
    }
    let encrypted = str_contains_ci(tn.0.as_str(), "luks") || str_contains_ci(
        tn.0.as_str(),
        "bitlocker",
    ) || str_contains_ci(line, "encrypted");
    let prefix: &str = match disk_type {
        DiskType::Normal => "/dev/",
        DiskType::Raid => "raid:",
        DiskType::Lvm => "lvm:",
    };
    let device = String::from_str(prefix).concat(tokens[n - 1].as_str());
    Some(
        Partition {
            device,
            size,
            filesystem: tn.0,
            label: tn.1,
            encrypted,
            mounted_by_system: false,
            system_mount_point: None,
            supported: true,
            support_note: None,
        },
    )
}

/// The parser state while walking the listing's lines: the disks gathered
/// so far and the disk under construction, if any.
pub struct ParseState {
    pub disks: Seq<DiskView>,
    pub current: Option<DiskView>,
}

/// Closes the disk under construction: it is kept only when it gathered at
/// least one partition.
pub open spec fn flush_current(st: ParseState) -> Seq<DiskView> {
    match st.current {
        Some(d) => if d.partitions.len() > 0 {
            st.disks.push(d)
        } else {
            st.disks
        },
        None => st.disks,
    }
}

/// The first whitespace-separated token of a line, or nothing.
pub open spec fn first_token(l: Seq<char>) -> Seq<char> {
    if split_ws(l).len() > 0 {
        split_ws(l)[0]
    } else {
        Seq::empty()
    }
}

/// What a disk header line declares: a `/dev/` line opens a normal disk
/// named by its first token; a `raid:` or `lvm:` line opens a virtual
/// volume named by its first token with trailing colons removed; other
/// lines are no header.  The parenthesized text gives the model, and for a
/// normal disk whether it is external.
pub open spec fn header_of_line(l: Seq<char>) -> Option<DiskView> {
    if "/dev/"@.is_prefix_of(l) {
        Some(
            DiskView {
                device: first_token(l),
                size: Seq::empty(),
                model: paren_info(l).0,
                is_external: paren_info(l).1,
                disk_type: DiskType::Normal,
                partitions: Seq::empty(),
            },
        )
    } else if "raid:"@.is_prefix_of(l) {
        Some(
            DiskView {
                device: strip_trailing(first_token(l), ':'),
                size: Seq::empty(),
                model: paren_info(l).0,
                is_external: false,
                disk_type: DiskType::Raid,
                partitions: Seq::empty(),
            },
        )
    } else if "lvm:"@.is_prefix_of(l) {
        Some(
            DiskView {
                device: strip_trailing(first_token(l), ':'),
                size: Seq::empty(),
                model: paren_info(l).0,
                is_external: false,
                disk_type: DiskType::Lvm,
                partitions: Seq::empty(),
            },
        )
    } else {
        None
    }
}

/// One line's effect on the parser state.  A header closes the previous
/// disk and opens a new one.  Other lines matter only inside a disk: the
/// column-header line and blank lines are skipped; a line numbered before a
/// colon is read as a partition, where number zero sets the disk size (and
/// for virtual volumes is itself the mountable partition) and any other
/// number appends a partition.
pub open spec fn disk_step(st: ParseState, l: Seq<char>) -> ParseState {
    match header_of_line(l) {
        Some(d) => ParseState { disks: flush_current(st), current: Some(d) },
        None => {
            let t = trim_seq(l);
            if "#:"@.is_prefix_of(t) {
                st
            } else {
                match st.current {
                    None => st,
                    Some(disk) => {
                        if t.len() == 0 {
                            st
                        } else {
                            let ci = char_index(t, ':', 0);
                            if ci >= t.len() {
                                st
                            } else if !all_digits(t.take(ci)) {
                                st
                            } else {
                                let num = t.take(ci);
                                let pnum: nat = if num.len() > 0 && digits_val(num) <= u32::MAX {
                                    digits_val(num)
                                } else {
                                    0
                                };
                                let rest = trim_seq(t.skip(ci + 1));
                                match partition_of_line(rest, disk.disk_type) {
                                    None => st,
                                    Some(p) => {
                                        if pnum == 0 {
                                            ParseState {
                                                disks: st.disks,
                                                current: Some(
                                                    DiskView {
                                                        device: disk.device,
                                                        size: p.size,
                                                        model: disk.model,
                                                        is_external: disk.is_external,
                                                        disk_type: disk.disk_type,
                                                        partitions: if disk.disk_type
                                                            != DiskType::Normal {
                                                            disk.partitions.push(p)
                                                        } else {
                                                            disk.partitions
                                                        },
                                                    },
                                                ),
                                            }
                                        } else {
                                            ParseState {
                                                disks: st.disks,
                                                current: Some(
                                                    DiskView {
                                                        device: disk.device,
                                                        size: disk.size,
                                                        model: disk.model,
                                                        is_external: disk.is_external,
                                                        disk_type: disk.disk_type,
                                                        partitions: disk.partitions.push(p),
                                                    },
                                                ),
                                            }
                                        }
                                    },
                                }
                            }
                        }
                    },
                }
            }
        },
    }
}

/// The parser state after the given lines.
pub open spec fn parse_state_of(lines: Seq<Seq<char>>) -> ParseState
    decreases lines.len(),
{
    if lines.len() == 0 {
        ParseState { disks: Seq::empty(), current: None }
    } else {
        disk_step(parse_state_of(lines.drop_last()), lines.last())
    }
}

/// The disks the whole listing describes.
pub open spec fn disks_of_listing(t: Seq<char>) -> Seq<DiskView> {
    flush_current(parse_state_of(split_lines(t)))
}

/// The view of an optional disk under construction.
pub open spec fn opt_disk_view(r: Option<Disk>) -> Option<DiskView> {
    match r {
        Some(d) => Some(d@),
        None => None,
    }
}

/// Reads the helper's textual listing into disks, exactly as
/// `disks_of_listing` describes; the support flag and the admin-mode flag
/// start cleared and are set by the later annotation passes.
#[verifier::loop_isolation(false)]
pub fn parse_disk_list_output(output: &str) -> (r: DiskListResult)
    ensures
        r@.disks == disks_of_listing(output@),
        r@.has_supported_partitions == false,
        r@.used_admin_mode == false,
{
    let lines = lines_of(output);
    let ghost lviews = split_lines(output@);
    let mut disks: Vec<Disk> = Vec::new();
    let mut cur: Option<Disk> = None;
    let n = lines.len();
    let mut i: usize = 0;
    proof {
        assert(lviews.take(0) =~= Seq::<Seq<char>>::empty());
        assert(views_of_disks(disks@) =~= Seq::<DiskView>::empty());
    }
    while i < n
        invariant
            0 <= i <= n,
            views_of_disks(disks@) == parse_state_of(lviews.take(i as int)).disks,
            opt_disk_view(cur) == parse_state_of(lviews.take(i as int)).current,
        decreases n - i,
    {
        let line = &lines[i];
        let ghost lv = lviews[i as int];
        let ghost st0 = parse_state_of(lviews.take(i as int));
        proof {
            assert(line@ == lv);
            assert(lviews.take(i + 1).drop_last() =~= lviews.take(i as int));
            assert(lviews.take(i + 1).last() == lv);
            assert(parse_state_of(lviews.take(i + 1)) == disk_step(st0, lv));
        }
        let is_dev = str_starts_with(line.as_str(), "/dev/");
        let is_raid = str_starts_with(line.as_str(), "raid:");
        let is_lvm = str_starts_with(line.as_str(), "lvm:");
        if is_dev || is_raid || is_lvm {
            let ghost old_disks = disks@;
            match cur {
                Some(d) => {
                    if d.partitions.len() > 0 {
                        let ghost dv = d@;
                        disks.push(d);
                        proof {
                            assert(views_of_disks(disks@) =~= views_of_disks(old_disks).push(dv));
                        }
                    }
                },
                None => {},
            }
            proof {
                assert(views_of_disks(disks@) == flush_current(st0));
            }
            let toks = tokens_of(line.as_str());
            let ft: String = if toks.len() > 0 {
                toks[0].clone()
            } else {
                String::new()
            };
            proof {
                assert(ft@ == first_token(lv));
            }
            let device: String = if is_dev {
                ft
            } else {
                String::from_str(str_strip_trailing(ft.as_str(), ':'))
            };
            let info = extract_parenthesized_info(line.as_str());
            let dt = if is_dev {
                DiskType::Normal
            } else if is_raid {
                DiskType::Raid
            } else {
                DiskType::Lvm
            };
            let ext = if is_dev {
                info.1
            } else {
                false
            };
            let fresh = Disk {
                device,
                size: String::new(),
                model: info.0,
                is_external: ext,
                disk_type: dt,
                partitions: Vec::new(),
            };
            proof {
                assert(views_of_partitions(fresh.partitions@) =~= Seq::<PartitionView>::empty());
                assert(Some(fresh@) == header_of_line(lv));
            }
            cur = Some(fresh);
        } else {
            let t = str_trim(line.as_str());
            if str_starts_with(t, "#:") {
                // the column-header line: skipped
            } else {
                match cur {
                    None => {
                        cur = None;
                    },
                    Some(mut disk) => {
                        let tn = t.unicode_len();
                        if tn == 0 {
                            cur = Some(disk);
                        } else {
                            match find_char(t, ':', 0) {
                                None => {
                                    proof {
                                        lemma_char_index_unique(t@, ':', 0, t@.len() as int);
                                    }
                                    cur = Some(disk);
                                },
                                Some(ci) => {
                                    proof {
                                        lemma_char_index_unique(t@, ':', 0, ci as int);
                                    }
                                    let num = t.substring_char(0, ci);
                                    proof {
                                        assert(num@ =~= trim_seq(lv).take(ci as int));
                                    }
                                    if !str_all_digits(num) {
                                        cur = Some(disk);
                                    } else {
                                        let pnum: u32 = match parse_u32(num) {
                                            Some(v) => v,
                                            None => 0,
                                        };
                                        let rest = str_trim(t.substring_char(ci + 1, tn));
                                        proof {
                                            assert(t@.subrange(ci + 1, tn as int) =~= t@.skip(
                                                ci + 1,
                                            ));
                                        }
                                        match parse_partition_line(rest, &disk.disk_type) {
                                            None => {
                                                cur = Some(disk);
                                            },
                                            Some(p) => {
                                                let ghost pv = p@;
                                                let ghost dv = disk@;
                                                if pnum == 0 {
                                                    disk.size = p.size.clone();
                                                    if disk.disk_type != DiskType::Normal {
                                                        let ghost parts0 = disk.partitions@;
                                                        disk.partitions.push(p);
                                                        proof {
                                                            assert(views_of_partitions(
                                                                disk.partitions@,
                                                            ) =~= views_of_partitions(
                                                                parts0,
                                                            ).push(pv));
                                                        }
                                                    }
                                                } else {
                                                    let ghost parts0 = disk.partitions@;
                                                    disk.partitions.push(p);
                                                    proof {
                                                        assert(views_of_partitions(
                                                            disk.partitions@,
                                                        ) =~= views_of_partitions(parts0).push(
                                                            pv,
                                                        ));
                                                    }
                                                }
                                                cur = Some(disk);
                                            },
                                        }
                                    }
                                },
                            }
                        }
                    },
                }
            }
        }
        i = i + 1;
    }
    proof {
        assert(lviews.take(n as int) =~= lviews);
    }
    let ghost old_disks = disks@;
    let ghost stf = parse_state_of(lviews);
    match cur {
        Some(d) => {
            if d.partitions.len() > 0 {
                let ghost dv = d@;
                disks.push(d);
                proof {
                    assert(views_of_disks(disks@) =~= views_of_disks(old_disks).push(dv));
                }
            }
        },
        None => {},
    }
    proof {
        assert(views_of_disks(disks@) == flush_current(stf));
    }
    DiskListResult { disks, has_supported_partitions: false, used_admin_mode: false }
}

/// A mount-table entry matches a partition device when the entry's device
/// ends with the partition device without its `/dev/` prefix, or equals it
/// outright.
pub open spec fn mount_match(mdev: Seq<char>, pdev: Seq<char>) -> bool {
    strip_prefix_all(pdev, "/dev/"@).is_suffix_of(mdev) || mdev == pdev
}

/// The mount point of the first matching mount-table entry.
pub open spec fn first_mount_point(
    mounts: Seq<(Seq<char>, Seq<char>)>,
    pdev: Seq<char>,
) -> Option<Seq<char>>
    decreases mounts.len(),
{
    if mounts.len() == 0 {
        None
    } else if mount_match(mounts[0].0, pdev) {
        Some(mounts[0].1)
    } else {
        first_mount_point(mounts.skip(1), pdev)
    }
}

/// A partition annotated with its live system mount state.
pub open spec fn partition_with_mount(
    p: PartitionView,
    mounts: Seq<(Seq<char>, Seq<char>)>,
) -> PartitionView {
    match first_mount_point(mounts, p.device) {
        Some(mp) => PartitionView {
            device: p.device,
            size: p.size,
            filesystem: p.filesystem,
            label: p.label,
            encrypted: p.encrypted,
            mounted_by_system: true,
            system_mount_point: Some(mp),
            supported: p.supported,
            support_note: p.support_note,
        },
        None => p,
    }
}

/// A disk with every partition annotated.
pub open spec fn disk_with_mounts(d: DiskView, mounts: Seq<(Seq<char>, Seq<char>)>) -> DiskView {
    DiskView {
        device: d.device,
        size: d.size,
        model: d.model,
        is_external: d.is_external,
        disk_type: d.disk_type,
        partitions: Seq::new(
            d.partitions.len(),
            |i: int| partition_with_mount(d.partitions[i], mounts),
        ),
    }
}

/// The listing with every partition's mount state annotated.
pub open spec fn list_with_mounts(
    r: DiskListView,
    mounts: Seq<(Seq<char>, Seq<char>)>,
) -> DiskListView {
    DiskListView {
        disks: Seq::new(r.disks.len(), |i: int| disk_with_mounts(r.disks[i], mounts)),
        has_supported_partitions: r.has_supported_partitions,
        used_admin_mode: r.used_admin_mode,
    }
}

#[verifier::loop_isolation(false)]
fn find_mount_point(mounts: &Vec<(String, String)>, device: &str) -> (r: Option<String>)
    ensures
        opt_str_view(r) == first_mount_point(views_of_pairs(mounts@), device@),
{
    let short = str_strip_prefix_all(device, "/dev/");
    let ghost mv = views_of_pairs(mounts@);
    let n = mounts.len();
    let mut i: usize = 0;
    proof {
        assert(mv.skip(0) =~= mv);
    }
    while i < n
        invariant
            0 <= i <= n,
            first_mount_point(mv.skip(i as int), device@) == first_mount_point(mv, device@),
        decreases n - i,
    {
        proof {
            assert(mv.skip(i as int)[0] == mv[i as int]);
            assert(mv.skip(i as int).skip(1) =~= mv.skip(i + 1));
        }
        if str_ends_with(mounts[i].0.as_str(), short) || crate::text::str_eq(
            mounts[i].0.as_str(),
            device,
        ) {
            return Some(mounts[i].1.clone());
        }
        i = i + 1;
    }
    proof {
        assert(mv.skip(n as int) =~= Seq::<(Seq<char>, Seq<char>)>::empty());
    }
    None
}

#[verifier::loop_isolation(false)]
fn annotate_partitions(parts: Vec<Partition>, mounts: &Vec<(String, String)>) -> (r: Vec<
    Partition,
>)
    ensures
        views_of_partitions(r@) == Seq::new(
            parts@.len(),
            |i: int| partition_with_mount(views_of_partitions(parts@)[i], views_of_pairs(mounts@)),
        ),
{
    let ghost pv0 = views_of_partitions(parts@);
    let ghost mv = views_of_pairs(mounts@);
    let ghost n = parts@.len() as int;
    let mut source = parts;
    let mut r: Vec<Partition> = Vec::new();
    while source.len() > 0
        invariant
            source@.len() <= n,
            views_of_partitions(source@) =~= pv0.skip(n - source@.len()),
            views_of_partitions(r@) =~= Seq::new(
                (n - source@.len()) as nat,
                |i: int| partition_with_mount(pv0[i], mv),
            ),
        decreases source@.len(),
    {
        let ghost pre = source@;
        let ghost k = n - pre.len();
        let ghost rpre = r@;
        let p = source.remove(0);
        proof {
            assert(views_of_partitions(pre)[0] == pv0.skip(k)[0]);
            assert(p@ == pv0[k]);
            assert(views_of_partitions(source@) =~= pv0.skip(k + 1)) by {
                assert forall|t: int|
                    0 <= t < source@.len() implies views_of_partitions(source@)[t] == pv0.skip(
                    k + 1,
                )[t] by {
                    assert(views_of_partitions(pre)[t + 1] == pv0.skip(k)[t + 1]);
                }
            }
        }
        let ghost pv = p@;
        match find_mount_point(mounts, p.device.as_str()) {
            Some(mp) => {
                r.push(
                    Partition {
                        mounted_by_system: true,
                        system_mount_point: Some(mp),
                        ..p
                    },
                );
            },
            None => {
                r.push(p);
            },
        }
        proof {
            assert(views_of_partitions(r@) =~= views_of_partitions(rpre).push(
                partition_with_mount(pv, mv),
            ));
            assert(views_of_partitions(r@) =~= Seq::new(
                (k + 1) as nat,
                |i: int| partition_with_mount(pv0[i], mv),
            ));
        }
    }
    proof {
        assert(views_of_partitions(r@) =~= Seq::new(
            n as nat,
            |i: int| partition_with_mount(pv0[i], mv),
        ));
    }
    r
}

/// Annotates every partition with the system mount state the mount-table
/// pairs show, leaving everything else untouched.
#[verifier::loop_isolation(false)]
pub fn update_mount_status(result: &mut DiskListResult, mounts: &Vec<(String, String)>)
    ensures
        final(result)@ == list_with_mounts(old(result)@, views_of_pairs(mounts@)),
{
    let ghost orig = old(result)@;
    let ghost mv = views_of_pairs(mounts@);
    let mut source: Vec<Disk> = Vec::new();
    core::mem::swap(&mut source, &mut result.disks);
    let ghost dv0 = views_of_disks(source@);
    let ghost n = source@.len() as int;
    let mut rebuilt: Vec<Disk> = Vec::new();
    while source.len() > 0
        invariant
            source@.len() <= n,
            views_of_disks(source@) =~= dv0.skip(n - source@.len()),
            views_of_disks(rebuilt@) =~= Seq::new(
                (n - source@.len()) as nat,
                |i: int| disk_with_mounts(dv0[i], mv),
            ),
        decreases source@.len(),
    {
        let ghost pre = source@;
        let ghost k = n - pre.len();
        let ghost rpre = rebuilt@;
        let d = source.remove(0);
        proof {
            assert(views_of_disks(pre)[0] == dv0.skip(k)[0]);
            assert(d@ == dv0[k]);
            assert(views_of_disks(source@) =~= dv0.skip(k + 1)) by {
                assert forall|t: int|
                    0 <= t < source@.len() implies views_of_disks(source@)[t] == dv0.skip(
                    k + 1,
                )[t] by {
                    assert(views_of_disks(pre)[t + 1] == dv0.skip(k)[t + 1]);
                }
            }
        }
        let ghost dview = d@;
        let Disk { device, size, model, is_external, disk_type, partitions } = d;
        let newparts = annotate_partitions(partitions, mounts);
        let rebuilt_disk = Disk {
            device,
            size,
            model,
            is_external,
            disk_type,
            partitions: newparts,
        };
        proof {
            assert(views_of_partitions(rebuilt_disk.partitions@) =~= disk_with_mounts(
                dview,
                mv,
            ).partitions);
            assert(rebuilt_disk@ == disk_with_mounts(dview, mv));
        }
        rebuilt.push(rebuilt_disk);
        proof {
            assert(views_of_disks(rebuilt@) =~= views_of_disks(rpre).push(
                disk_with_mounts(dview, mv),
            ));
            assert(views_of_disks(rebuilt@) =~= Seq::new(
                (k + 1) as nat,
                |i: int| disk_with_mounts(dv0[i], mv),
            ));
        }
    }
    result.disks = rebuilt;
    proof {
        assert(views_of_disks(result.disks@) =~= Seq::new(
            n as nat,
            |i: int| disk_with_mounts(dv0[i], mv),
        ));
        assert(final(result)@.disks =~= list_with_mounts(orig, mv).disks);
    }
}

/// Whether a partition still needs the host's disk-info utility: the
/// listing's own filesystem name is not already a supported Linux-native
/// one.
pub open spec fn needs_diskutil(p: PartitionView) -> bool {
    !(fs_support(p.filesystem).0 && linux_native_fs(p.filesystem))
}

/// The device identifiers of one disk's partitions that need the utility.
pub open spec fn diskutil_ids_of_parts(ps: Seq<PartitionView>) -> Seq<Seq<char>>
    decreases ps.len(),
{
    if ps.len() == 0 {
        Seq::empty()
    } else {
        (if needs_diskutil(ps[0]) {
            seq![strip_prefix_all(ps[0].device, "/dev/"@)]
        } else {
            Seq::empty()
        }) + diskutil_ids_of_parts(ps.skip(1))
    }
}

/// The device identifiers needing the utility over all disks; virtual
/// volumes are skipped, the utility does not know them.
pub open spec fn diskutil_ids_of_disks(ds: Seq<DiskView>) -> Seq<Seq<char>>
    decreases ds.len(),
{
    if ds.len() == 0 {
        Seq::empty()
    } else {
        (if ds[0].disk_type == DiskType::Normal {
            diskutil_ids_of_parts(ds[0].partitions)
        } else {
            Seq::empty()
        }) + diskutil_ids_of_disks(ds.skip(1))
    }
}

#[verifier::loop_isolation(false)]
fn diskutil_ids_for_disk(d: &Disk) -> (r: Vec<String>)
    ensures
        views_of_strings(r@) == (if d@.disk_type == DiskType::Normal {
            diskutil_ids_of_parts(d@.partitions)
        } else {
            Seq::<Seq<char>>::empty()
        }),
{
    let mut r: Vec<String> = Vec::new();
    proof {
        assert(views_of_strings(r@) =~= Seq::<Seq<char>>::empty());
    }
    if !(d.disk_type == DiskType::Normal) {
        return r;
    }
    let ghost pv = d@.partitions;
    let n = d.partitions.len();
    let mut j: usize = 0;
    proof {
        assert(pv.skip(0) =~= pv);
    }
    while j < n
        invariant
            0 <= j <= n,
            diskutil_ids_of_parts(pv) == views_of_strings(r@) + diskutil_ids_of_parts(
                pv.skip(j as int),
            ),
        decreases n - j,
    {
        let p = &d.partitions[j];
        proof {
            assert(p@ == pv[j as int]);
            assert(pv.skip(j as int)[0] == pv[j as int]);
            assert(pv.skip(j as int).skip(1) =~= pv.skip(j + 1));
        }
        let ghost rpre = r@;
        let judged = check_filesystem_support(p.filesystem.as_str());
        let native = is_linux_native_fs(p.filesystem.as_str());
        if !(judged.0 && native) {
            let id = String::from_str(str_strip_prefix_all(p.device.as_str(), "/dev/"));
            r.push(id);
            proof {
                assert(views_of_strings(r@) =~= views_of_strings(rpre).push(
                    strip_prefix_all(pv[j as int].device, "/dev/"@),
                ));
            }
        }
        j = j + 1;
    }
    proof {
        assert(pv.skip(n as int) =~= Seq::<PartitionView>::empty());
        assert(views_of_strings(r@) + Seq::<Seq<char>>::empty() =~= views_of_strings(r@));
    }
    r
}

/// Collects the device identifiers the host's disk-info utility must be
/// asked about, in listing order.
#[verifier::loop_isolation(false)]
pub fn partitions_needing_diskutil(result: &DiskListResult) -> (r: Vec<String>)
    ensures
        views_of_strings(r@) == diskutil_ids_of_disks(result@.disks),
{
    let ghost dv = result@.disks;
    let mut r: Vec<String> = Vec::new();
    let n = result.disks.len();
    let mut i: usize = 0;
    proof {
        assert(dv.skip(0) =~= dv);
        assert(views_of_strings(r@) =~= Seq::<Seq<char>>::empty());
    }
    while i < n
        invariant
            0 <= i <= n,
            diskutil_ids_of_disks(dv) == views_of_strings(r@) + diskutil_ids_of_disks(
                dv.skip(i as int),
            ),
        decreases n - i,
    {
        proof {
            assert(result.disks@[i as int]@ == dv[i as int]);
            assert(dv.skip(i as int)[0] == dv[i as int]);
            assert(dv.skip(i as int).skip(1) =~= dv.skip(i + 1));
        }
        let ghost rpre = r@;
        let mut ids = diskutil_ids_for_disk(&result.disks[i]);
        let ghost idsv = views_of_strings(ids@);
        r.append(&mut ids);
        proof {
            assert(views_of_strings(r@) =~= views_of_strings(rpre) + idsv);
        }
        i = i + 1;
    }
    proof {
        assert(dv.skip(n as int) =~= Seq::<DiskView>::empty());
        assert(views_of_strings(r@) + Seq::<Seq<char>>::empty() =~= views_of_strings(r@));
    }
    r
}

/// The views of disk-info results: device identifier, reported personality,
/// support verdict and note.
pub open spec fn views_of_results(v: Seq<(String, String, bool, Option<String>)>) -> Seq<
    (Seq<char>, Seq<char>, bool, Option<Seq<char>>),
> {
    Seq::new(v.len(), |i: int| (v[i].0@, v[i].1@, v[i].2, opt_str_view(v[i].3)))
}

/// The first disk-info result recorded for a device identifier.
pub open spec fn first_diskutil_result(
    rs: Seq<(Seq<char>, Seq<char>, bool, Option<Seq<char>>)>,
    id: Seq<char>,
) -> Option<(Seq<char>, bool, Option<Seq<char>>)>
    decreases rs.len(),
{
    if rs.len() == 0 {
        None
    } else if rs[0].0 == id {
        Some((rs[0].1, rs[0].2, rs[0].3))
    } else {
        first_diskutil_result(rs.skip(1), id)
    }
}

/// A partition with its final support judgment: virtual volumes keep the
/// listing's own judgment; a supported Linux-native name keeps its own
/// judgment with `supported` forced on; otherwise the utility's result for
/// the partition's identifier decides, replacing a non-native filesystem
/// name with a non-empty reported personality; without a result the
/// listing's own judgment stands.
pub open spec fn partition_with_support(
    p: PartitionView,
    dt: DiskType,
    rs: Seq<(Seq<char>, Seq<char>, bool, Option<Seq<char>>)>,
) -> PartitionView {
    let own = fs_support(p.filesystem);
    if dt != DiskType::Normal {
        PartitionView {
            device: p.device,
            size: p.size,
            filesystem: p.filesystem,
            label: p.label,
            encrypted: p.encrypted,
            mounted_by_system: p.mounted_by_system,
            system_mount_point: p.system_mount_point,
            supported: own.0,
            support_note: own.1,
        }
    } else if own.0 && linux_native_fs(p.filesystem) {
        PartitionView {
            device: p.device,
            size: p.size,
            filesystem: p.filesystem,
            label: p.label,
            encrypted: p.encrypted,
            mounted_by_system: p.mounted_by_system,
            system_mount_point: p.system_mount_point,
            supported: true,
            support_note: own.1,
        }
    } else {
        match first_diskutil_result(rs, strip_prefix_all(p.device, "/dev/"@)) {
            Some((pers, dsup, dnote)) => PartitionView {
                device: p.device,
                size: p.size,
                filesystem: if pers.len() > 0 && !linux_native_fs(p.filesystem) {
                    pers
                } else {
                    p.filesystem
                },
                label: p.label,
                encrypted: p.encrypted,
                mounted_by_system: p.mounted_by_system,
                system_mount_point: p.system_mount_point,
                supported: dsup,
                support_note: dnote,
            },
            None => PartitionView {
                device: p.device,
                size: p.size,
                filesystem: p.filesystem,
                label: p.label,
                encrypted: p.encrypted,
                mounted_by_system: p.mounted_by_system,
                system_mount_point: p.system_mount_point,
                supported: own.0,
                support_note: own.1,
            },
        }
    }
}

/// A disk with every partition's support judged.
pub open spec fn disk_with_support(
    d: DiskView,
    rs: Seq<(Seq<char>, Seq<char>, bool, Option<Seq<char>>)>,
) -> DiskView {
    DiskView {
        device: d.device,
        size: d.size,
        model: d.model,
        is_external: d.is_external,
        disk_type: d.disk_type,
        partitions: Seq::new(
            d.partitions.len(),
            |i: int| partition_with_support(d.partitions[i], d.disk_type, rs),
        ),
    }
}

/// The listing with every partition's support judged.
pub open spec fn list_with_support(
    r: DiskListView,
    rs: Seq<(Seq<char>, Seq<char>, bool, Option<Seq<char>>)>,
) -> DiskListView {
    DiskListView {
        disks: Seq::new(r.disks.len(), |i: int| disk_with_support(r.disks[i], rs)),
        has_supported_partitions: r.has_supported_partitions,
        used_admin_mode: r.used_admin_mode,
    }
}

#[verifier::loop_isolation(false)]
fn find_diskutil_result(results: &Vec<(String, String, bool, Option<String>)>, id: &str) -> (r:
    Option<(String, bool, Option<String>)>)
    ensures
        ({
            let found = first_diskutil_result(views_of_results(results@), id@);
            match r {
                Some(t) => found == Some((t.0@, t.1, opt_str_view(t.2))),
                None => found is None,
            }
        }),
{
    let ghost rv = views_of_results(results@);
    let n = results.len();
    let mut i: usize = 0;
    proof {
        assert(rv.skip(0) =~= rv);
    }
    while i < n
        invariant
            0 <= i <= n,
            first_diskutil_result(rv.skip(i as int), id@) == first_diskutil_result(rv, id@),
        decreases n - i,
    {
        proof {
            assert(rv.skip(i as int)[0] == rv[i as int]);
            assert(rv.skip(i as int).skip(1) =~= rv.skip(i + 1));
        }
        if crate::text::str_eq(results[i].0.as_str(), id) {
            return Some((results[i].1.clone(), results[i].2, results[i].3.clone()));
        }
        i = i + 1;
    }
    proof {
        assert(rv.skip(n as int) =~= Seq::<(Seq<char>, Seq<char>, bool, Option<Seq<char>>)>::empty());
    }
    None
}

#[verifier::loop_isolation(false)]
fn judge_partitions(
    parts: Vec<Partition>,
    dt: &DiskType,
    results: &Vec<(String, String, bool, Option<String>)>,
) -> (r: Vec<Partition>)
    ensures
        views_of_partitions(r@) == Seq::new(
            parts@.len(),
            |i: int|
                partition_with_support(
                    views_of_partitions(parts@)[i],
                    *dt,
                    views_of_results(results@),
                ),
        ),
{
    let ghost pv0 = views_of_partitions(parts@);
    let ghost rv = views_of_results(results@);
    let ghost n = parts@.len() as int;
    let mut source = parts;
    let mut r: Vec<Partition> = Vec::new();
    while source.len() > 0
        invariant
            source@.len() <= n,
            views_of_partitions(source@) =~= pv0.skip(n - source@.len()),
            views_of_partitions(r@) =~= Seq::new(
                (n - source@.len()) as nat,
                |i: int| partition_with_support(pv0[i], *dt, rv),
            ),
        decreases source@.len(),
    {
        let ghost pre = source@;
        let ghost k = n - pre.len();
        let ghost rpre = r@;
        let p = source.remove(0);
        proof {
            assert(views_of_partitions(pre)[0] == pv0.skip(k)[0]);
            assert(p@ == pv0[k]);
            assert(views_of_partitions(source@) =~= pv0.skip(k + 1)) by {
                assert forall|t: int|
                    0 <= t < source@.len() implies views_of_partitions(source@)[t] == pv0.skip(
                    k + 1,
                )[t] by {
                    assert(views_of_partitions(pre)[t + 1] == pv0.skip(k)[t + 1]);
                }
            }
        }
        let ghost pview = p@;
        let own = check_filesystem_support(p.filesystem.as_str());
        let native = is_linux_native_fs(p.filesystem.as_str());
        let judged: Partition;
        if !(*dt == DiskType::Normal) {
            judged = Partition { supported: own.0, support_note: own.1, ..p };
        } else if own.0 && native {
            judged = Partition { supported: true, support_note: own.1, ..p };
        } else {
            let id = str_strip_prefix_all(p.device.as_str(), "/dev/");
            match find_diskutil_result(results, id) {
                Some(found) => {
                    let replace = found.0.unicode_len() > 0 && !native;
                    if replace {
                        judged = Partition {
                            filesystem: found.0,
                            supported: found.1,
                            support_note: found.2,
                            ..p
                        };
                    } else {
                        judged = Partition {
                            supported: found.1,
                            support_note: found.2,
                            ..p
                        };
                    }
                },
                None => {
                    judged = Partition { supported: own.0, support_note: own.1, ..p };
                },
            }
        }
        proof {
            assert(judged@ == partition_with_support(pview, *dt, rv));
        }
        r.push(judged);
        proof {
            assert(views_of_partitions(r@) =~= views_of_partitions(rpre).push(
                partition_with_support(pview, *dt, rv),
            ));
            assert(views_of_partitions(r@) =~= Seq::new(
                (k + 1) as nat,
                |i: int| partition_with_support(pv0[i], *dt, rv),
            ));
        }
    }
    proof {
        assert(views_of_partitions(r@) =~= Seq::new(
            n as nat,
            |i: int| partition_with_support(pv0[i], *dt, rv),
        ));
    }
    r
}

/// Applies the disk-info results: every partition gets its final support
/// judgment, exactly as `list_with_support` describes.
#[verifier::loop_isolation(false)]
pub fn apply_diskutil_results(
    result: &mut DiskListResult,
    results: &Vec<(String, String, bool, Option<String>)>,
)
    ensures
        final(result)@ == list_with_support(old(result)@, views_of_results(results@)),
{
    let ghost orig = old(result)@;
    let ghost rv = views_of_results(results@);
    let mut source: Vec<Disk> = Vec::new();
    core::mem::swap(&mut source, &mut result.disks);
    let ghost dv0 = views_of_disks(source@);
    let ghost n = source@.len() as int;
    let mut rebuilt: Vec<Disk> = Vec::new();
    while source.len() > 0
        invariant
            source@.len() <= n,
            views_of_disks(source@) =~= dv0.skip(n - source@.len()),
            views_of_disks(rebuilt@) =~= Seq::new(
                (n - source@.len()) as nat,
                |i: int| disk_with_support(dv0[i], rv),
            ),
        decreases source@.len(),
    {
        let ghost pre = source@;
        let ghost k = n - pre.len();
        let ghost rpre = rebuilt@;
        let d = source.remove(0);
        proof {
            assert(views_of_disks(pre)[0] == dv0.skip(k)[0]);
            assert(d@ == dv0[k]);
            assert(views_of_disks(source@) =~= dv0.skip(k + 1)) by {
                assert forall|t: int|
                    0 <= t < source@.len() implies views_of_disks(source@)[t] == dv0.skip(
                    k + 1,
                )[t] by {
                    assert(views_of_disks(pre)[t + 1] == dv0.skip(k)[t + 1]);
                }
            }
        }
        let ghost dview = d@;
        let Disk { device, size, model, is_external, disk_type, partitions } = d;
        let newparts = judge_partitions(partitions, &disk_type, results);
        let rebuilt_disk = Disk {
            device,
            size,
            model,
            is_external,
            disk_type,
            partitions: newparts,
        };
        proof {
            assert(views_of_partitions(rebuilt_disk.partitions@) =~= disk_with_support(
                dview,
                rv,
            ).partitions);
            assert(rebuilt_disk@ == disk_with_support(dview, rv));
        }
        rebuilt.push(rebuilt_disk);
        proof {
            assert(views_of_disks(rebuilt@) =~= views_of_disks(rpre).push(
                disk_with_support(dview, rv),
            ));
            assert(views_of_disks(rebuilt@) =~= Seq::new(
                (k + 1) as nat,
                |i: int| disk_with_support(dv0[i], rv),
            ));
        }
    }
    result.disks = rebuilt;
    proof {
        assert(views_of_disks(result.disks@) =~= Seq::new(
            n as nat,
            |i: int| disk_with_support(dv0[i], rv),
        ));
        assert(final(result)@.disks =~= list_with_support(orig, rv).disks);
    }
}

/// Some partition is both supported and not already mounted by the system.
pub open spec fn any_mountable(ds: Seq<DiskView>) -> bool {
    exists|i: int, j: int|
        0 <= i < ds.len() && 0 <= j < ds[i].partitions.len() && (#[trigger] ds[i].partitions[j]).supported
            && !ds[i].partitions[j].mounted_by_system
}

/// Recomputes the mountable-partition flag and records whether the listing
/// ran elevated; the disks themselves are untouched.
#[verifier::loop_isolation(false)]
pub fn update_supported_flag(result: &mut DiskListResult, used_admin: bool)
    ensures
        final(result)@.disks == old(result)@.disks,
        final(result)@.has_supported_partitions == any_mountable(old(result)@.disks),
        final(result)@.used_admin_mode == used_admin,
{
    let ghost dv = result@.disks;
    let mut found = false;
    let n = result.disks.len();
    let mut i: usize = 0;
    while i < n
        invariant
            0 <= i <= n,
            found == exists|a: int, b: int|
                0 <= a < i && 0 <= b < dv[a].partitions.len() && (
                #[trigger] dv[a].partitions[b]).supported && !dv[a].partitions[b].mounted_by_system,
        decreases n - i,
    {
        let m = result.disks[i].partitions.len();
        let mut j: usize = 0;
        while j < m
            invariant
                0 <= j <= m,
                0 <= i < n,
                m == dv[i as int].partitions.len(),
                found == ((exists|a: int, b: int|
                    0 <= a < i && 0 <= b < dv[a].partitions.len() && (
                    #[trigger] dv[a].partitions[b]).supported
                        && !dv[a].partitions[b].mounted_by_system) || (exists|b: int|
                    0 <= b < j && (#[trigger] dv[i as int].partitions[b]).supported && !dv[i as int].partitions[b].mounted_by_system)),
            decreases m - j,
        {
            let p = &result.disks[i].partitions[j];
            proof {
                assert(p@ == dv[i as int].partitions[j as int]);
            }
            if p.supported && !p.mounted_by_system {
                found = true;
            }
            j = j + 1;
        }
        proof {
            let ex_next = exists|a: int, b: int|
                0 <= a < i + 1 && 0 <= b < dv[a].partitions.len() && (
                #[trigger] dv[a].partitions[b]).supported && !dv[a].partitions[b].mounted_by_system;
            if found {
                if exists|a: int, b: int|
                    0 <= a < i && 0 <= b < dv[a].partitions.len() && (
                    #[trigger] dv[a].partitions[b]).supported
                        && !dv[a].partitions[b].mounted_by_system {
                    let (a, b) = choose|a: int, b: int|
                        0 <= a < i && 0 <= b < dv[a].partitions.len() && (
                        #[trigger] dv[a].partitions[b]).supported
                            && !dv[a].partitions[b].mounted_by_system;
                    assert(0 <= a < i + 1 && 0 <= b < dv[a].partitions.len() && dv[a].partitions[b].supported
                        && !dv[a].partitions[b].mounted_by_system);
                } else {
                    let b = choose|b: int|
                        0 <= b < m && (#[trigger] dv[i as int].partitions[b]).supported
                            && !dv[i as int].partitions[b].mounted_by_system;
                    assert(0 <= (i as int) && (i as int) < i + 1 && 0 <= b < dv[i as int].partitions.len()
                        && dv[i as int].partitions[b].supported
                        && !dv[i as int].partitions[b].mounted_by_system);
                }
                assert(ex_next);
            }
            if ex_next && !found {
                let (a, b) = choose|a: int, b: int|
                    0 <= a < i + 1 && 0 <= b < dv[a].partitions.len() && (
                    #[trigger] dv[a].partitions[b]).supported
                        && !dv[a].partitions[b].mounted_by_system;
                if a < i {
                    assert(exists|a2: int, b2: int|
                        0 <= a2 < i && 0 <= b2 < dv[a2].partitions.len() && (
                        #[trigger] dv[a2].partitions[b2]).supported
                            && !dv[a2].partitions[b2].mounted_by_system);
                } else {
                    assert(a == i as int);
                    assert(exists|b2: int|
                        0 <= b2 < m && (#[trigger] dv[i as int].partitions[b2]).supported
                            && !dv[i as int].partitions[b2].mounted_by_system);
                }
                assert(false);
            }
            assert(found == ex_next);
        }
        i = i + 1;
    }
    result.has_supported_partitions = found;
    result.used_admin_mode = used_admin;
}

} // verus!
