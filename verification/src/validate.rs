//! Input validation for values that end up on a helper command line.
//!
//! Device paths, image names and package names come from the user interface
//! and are passed to a privileged child process as arguments; each validator
//! admits exactly the characters the helper expects and rejects path
//! traversal and option injection.

use vstd::prelude::*;

use crate::text::contains_seq;
use crate::text::str_contains;
use crate::text::str_starts_with;

verus! {

/// ASCII letter or digit.
pub open spec fn is_ascii_alnum(c: char) -> bool {
    ('0' <= c && c <= '9') || ('a' <= c && c <= 'z') || ('A' <= c && c <= 'Z')
}

fn alnum_char(c: char) -> (r: bool)
    ensures
        r == is_ascii_alnum(c),
{
    ('0' <= c && c <= '9') || ('a' <= c && c <= 'z') || ('A' <= c && c <= 'Z')
}

/// Characters a `/dev/` device path may hold.
pub open spec fn device_char_ok(c: char) -> bool {
    is_ascii_alnum(c) || c == '/' || c == '-' || c == '_'
}

/// Characters a RAID or LVM volume identifier may hold.
pub open spec fn raid_char_ok(c: char) -> bool {
    is_ascii_alnum(c) || c == ':' || c == '-' || c == '_'
}

/// A device argument the helper may be invoked on: non-empty, free of path
/// traversal, and either a `/dev/` path of safe path characters or a
/// `raid:`/`lvm:` identifier of safe identifier characters.
pub open spec fn valid_device_path(d: Seq<char>) -> bool {
    &&& d.len() > 0
    &&& !contains_seq(d, ".."@)
    &&& if "/dev/"@.is_prefix_of(d) {
        forall|i: int| 0 <= i < d.len() ==> device_char_ok(#[trigger] d[i])
    } else if "raid:"@.is_prefix_of(d) || "lvm:"@.is_prefix_of(d) {
        forall|i: int| 0 <= i < d.len() ==> raid_char_ok(#[trigger] d[i])
    } else {
        false
    }
}

fn all_device_chars(s: &str) -> (r: bool)
    ensures
        r == forall|i: int| 0 <= i < s@.len() ==> device_char_ok(#[trigger] s@[i]),
{
    let n = s.unicode_len();
    let mut i: usize = 0;
    while i < n
        invariant
            0 <= i <= n,
            n == s@.len(),
            forall|j: int| 0 <= j < i ==> device_char_ok(#[trigger] s@[j]),
        decreases n - i,
    {
        let c = s.get_char(i);
        if !(alnum_char(c) || c == '/' || c == '-' || c == '_') {
            return false;
        }
        i = i + 1;
    }
    true
}

fn all_raid_chars(s: &str) -> (r: bool)
    ensures
        r == forall|i: int| 0 <= i < s@.len() ==> raid_char_ok(#[trigger] s@[i]),
{
    let n = s.unicode_len();
    let mut i: usize = 0;
    while i < n
        invariant
            0 <= i <= n,
            n == s@.len(),
            forall|j: int| 0 <= j < i ==> raid_char_ok(#[trigger] s@[j]),
        decreases n - i,
    {
        let c = s.get_char(i);
        if !(alnum_char(c) || c == ':' || c == '-' || c == '_') {
            return false;
        }
        i = i + 1;
    }
    true
}

/// Accepts exactly the valid device paths; each rejection names its reason,
/// checked in the order: empty, traversal, character set or missing prefix.
pub fn validate_device_path(device: &str) -> (r: Result<(), String>)
    ensures
        r is Ok <==> valid_device_path(device@),
        device@.len() == 0 ==> (r matches Err(m) && m@ == "Device path is required"@),
        device@.len() > 0 && contains_seq(device@, ".."@) ==> (r matches Err(m) && m@
            == "Device path cannot contain '..'"@),
        device@.len() > 0 && !contains_seq(device@, ".."@) && !"/dev/"@.is_prefix_of(device@)
            && !"raid:"@.is_prefix_of(device@) && !"lvm:"@.is_prefix_of(device@) ==> (r matches Err(
            m,
        ) && m@ == "Device path must start with /dev/, raid:, or lvm:"@),
        r is Err && device@.len() > 0 && !contains_seq(device@, ".."@) && ("/dev/"@.is_prefix_of(
            device@,
        ) || "raid:"@.is_prefix_of(device@) || "lvm:"@.is_prefix_of(device@)) ==> (r matches Err(m)
            && m@ == "Device path contains invalid characters"@),
{
    if device.unicode_len() == 0 {
        return Err(String::from_str("Device path is required"));
    }
    if str_contains(device, "..") {
        return Err(String::from_str("Device path cannot contain '..'"));
    }
    if str_starts_with(device, "/dev/") {
        if all_device_chars(device) {
            Ok(())
        } else {
            Err(String::from_str("Device path contains invalid characters"))
        }
    } else if str_starts_with(device, "raid:") || str_starts_with(device, "lvm:") {
        if all_raid_chars(device) {
            Ok(())
        } else {
            Err(String::from_str("Device path contains invalid characters"))
        }
    } else {
        Err(String::from_str("Device path must start with /dev/, raid:, or lvm:"))
    }
}

/// Characters an image name may hold.
pub open spec fn image_char_ok(c: char) -> bool {
    is_ascii_alnum(c) || c == '-' || c == '.' || c == '_'
}

/// A VM image name the helper may be invoked on: non-empty, safe characters
/// only, no path traversal.
pub open spec fn valid_image_name(s: Seq<char>) -> bool {
    &&& s.len() > 0
    &&& (forall|i: int| 0 <= i < s.len() ==> image_char_ok(#[trigger] s[i]))
    &&& !contains_seq(s, ".."@)
}

/// Accepts exactly the valid image names; rejections are checked in the
/// order: empty, character set, traversal.
pub fn validate_image_name(image: &str) -> (r: Result<(), String>)
    ensures
        r is Ok <==> valid_image_name(image@),
        image@.len() == 0 ==> (r matches Err(m) && m@ == "Image name cannot be empty"@),
        image@.len() > 0 && !(forall|i: int|
            0 <= i < image@.len() ==> image_char_ok(#[trigger] image@[i])) ==> (r matches Err(m)
            && m@ == "Invalid image name '"@ + image@ + "': contains invalid characters"@),
        image@.len() > 0 && (forall|i: int|
            0 <= i < image@.len() ==> image_char_ok(#[trigger] image@[i])) && contains_seq(
            image@,
            ".."@,
        ) ==> (r matches Err(m) && m@ == "Image name cannot contain '..'"@),
{
    let n = image.unicode_len();
    if n == 0 {
        return Err(String::from_str("Image name cannot be empty"));
    }
    let mut i: usize = 0;
    while i < n
        invariant
            0 <= i <= n,
            n == image@.len(),
            forall|j: int| 0 <= j < i ==> image_char_ok(#[trigger] image@[j]),
        decreases n - i,
    {
        let c = image.get_char(i);
        if !(alnum_char(c) || c == '-' || c == '.' || c == '_') {
            return Err(
                String::from_str("Invalid image name '").concat(image).concat(
                    "': contains invalid characters",
                ),
            );
        }
        i = i + 1;
    }
    if str_contains(image, "..") {
        return Err(String::from_str("Image name cannot contain '..'"));
    }
    Ok(())
}

/// Characters a package name may hold; `+` serves names of the g++ kind and
/// `@` serves repository tags.
pub open spec fn package_char_ok(c: char) -> bool {
    is_ascii_alnum(c) || c == '.' || c == '_' || c == '-' || c == '+' || c == '@'
}

/// A package name the helper may install or remove: non-empty, bounded,
/// safe characters only, and not starting with a dash, which the child
/// would read as an option.
pub open spec fn valid_package_name(s: Seq<char>) -> bool {
    &&& 0 < s.len() <= 128
    &&& (forall|i: int| 0 <= i < s.len() ==> package_char_ok(#[trigger] s[i]))
    &&& s[0] != '-'
}

/// Accepts exactly the valid package names; rejections are checked in the
/// order: empty, too long, character set, leading dash.
pub fn validate_package_name(name: &str) -> (r: Result<(), String>)
    ensures
        r is Ok <==> valid_package_name(name@),
        name@.len() == 0 ==> (r matches Err(m) && m@ == "Package name cannot be empty"@),
        name@.len() > 128 ==> (r matches Err(m) && m@ == "Package name too long"@),
        0 < name@.len() <= 128 && !(forall|i: int|
            0 <= i < name@.len() ==> package_char_ok(#[trigger] name@[i])) ==> (r matches Err(m)
            && m@ == "Package name '"@ + name@ + "' contains invalid characters"@),
        0 < name@.len() <= 128 && (forall|i: int|
            0 <= i < name@.len() ==> package_char_ok(#[trigger] name@[i])) && name@[0] == '-' ==> (
        r matches Err(m) && m@ == "Package name cannot start with '-'"@),
{
    let n = name.unicode_len();
    if n == 0 {
        return Err(String::from_str("Package name cannot be empty"));
    }
    if n > 128 {
        return Err(String::from_str("Package name too long"));
    }
    let mut i: usize = 0;
    while i < n
        invariant
            0 <= i <= n,
            n == name@.len(),
            n <= 128,
            forall|j: int| 0 <= j < i ==> package_char_ok(#[trigger] name@[j]),
        decreases n - i,
    {
        let c = name.get_char(i);
        if !(alnum_char(c) || c == '.' || c == '_' || c == '-' || c == '+' || c == '@') {
            return Err(
                String::from_str("Package name '").concat(name).concat(
                    "' contains invalid characters",
                ),
            );
        }
        i = i + 1;
    }
    if name.get_char(0) == '-' {
        return Err(String::from_str("Package name cannot start with '-'"));
    }
    Ok(())
}

/// Argument vector for a package operation: `apk add <names…>` or
/// `apk del <names…>`, refused as a whole when the list is empty or any
/// name is invalid.
pub fn build_package_command(add: bool, packages: &Vec<String>) -> (r: Result<Vec<String>, String>)
    ensures
        r is Ok <==> packages@.len() > 0 && (forall|i: int|
            0 <= i < packages@.len() ==> valid_package_name(#[trigger] packages@[i]@)),
        packages@.len() == 0 ==> (r matches Err(m) && m@ == "No packages specified"@),
        r matches Ok(v) ==> v@.len() == packages@.len() + 2 && v@[0]@ == "apk"@ && v@[1]@ == (
        if add {
            "add"@
        } else {
            "del"@
        }) && (forall|i: int| 0 <= i < packages@.len() ==> #[trigger] v@[2 + i]@ == packages@[i]@),
{
    if packages.len() == 0 {
        return Err(String::from_str("No packages specified"));
    }
    let mut i: usize = 0;
    while i < packages.len()
        invariant
            0 <= i <= packages@.len(),
            forall|j: int| 0 <= j < i ==> valid_package_name(#[trigger] packages@[j]@),
        decreases packages@.len() - i,
    {
        if let Err(m) = validate_package_name(packages[i].as_str()) {
            return Err(m);
        }
        i = i + 1;
    }
    let mut v: Vec<String> = Vec::new();
    v.push(String::from_str("apk"));
    if add {
        v.push(String::from_str("add"));
    } else {
        v.push(String::from_str("del"));
    }
    let mut j: usize = 0;
    while j < packages.len()
        invariant
            0 <= j <= packages@.len(),
            v@.len() == j + 2,
            v@[0]@ == "apk"@,
            v@[1]@ == (if add {
                "add"@
            } else {
                "del"@
            }),
            forall|t: int| 0 <= t < j ==> #[trigger] v@[2 + t]@ == packages@[t]@,
        decreases packages@.len() - j,
    {
        v.push(packages[j].clone());
        j = j + 1;
    }
    Ok(v)
}

} // verus!
