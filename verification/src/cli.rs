//! Helper-binary bookkeeping: the status record shown to the user, the
//! version parse, and the version-file comparison behind the reinstall
//! check.  Locating the binary and reading version files is file-system
//! work and stays in the application.

use vstd::prelude::*;

use crate::text::lines_of;
use crate::text::split_lines;
use crate::text::str_ends_with;
use crate::text::str_eq;
use crate::text::str_starts_with;
use crate::text::str_strip_suffix_all;
use crate::text::str_trim;
use crate::text::strip_suffix_all;
use crate::text::trim_seq;
use crate::text::views_of_strings;

verus! {

/// What the user sees about the helper installation.
pub struct CliStatus {
    pub available: bool,
    pub path: String,
    pub initialized: bool,
    pub reinit_pending: bool,
    pub cli_version: Option<String>,
    pub gui_version: String,
}

/// Extracts the bare version from the helper's `--version` output: the
/// trimmed text, with a leading `anylinuxfs ` tag removed when present.
pub fn parse_version_output(out: &str) -> (r: String)
    ensures
        ({
            let t = trim_seq(out@);
            if "anylinuxfs "@.is_prefix_of(t) {
                r@ == t.skip("anylinuxfs "@.len() as int)
            } else {
                r@ == t
            }
        }),
{
    let t = str_trim(out);
    proof {
        reveal_strlit("anylinuxfs ");
    }
    if str_starts_with(t, "anylinuxfs ") {
        let n = t.unicode_len();
        let tail = t.substring_char(11, n);
        proof {
            assert(tail@ =~= trim_seq(out@).skip(11));
        }
        String::from_str(tail)
    } else {
        String::from_str(t)
    }
}

/// One installable VM image as the helper lists it.
pub struct VmImage {
    pub name: String,
    pub installed: bool,
}

/// Ghost image of `VmImage`.
pub struct VmImageView {
    pub name: Seq<char>,
    pub installed: bool,
}

impl View for VmImage {
    type V = VmImageView;

    open spec fn view(&self) -> VmImageView {
        VmImageView { name: self.name@, installed: self.installed }
    }
}

/// The views of a sequence of images.
pub open spec fn views_of_images(v: Seq<VmImage>) -> Seq<VmImageView> {
    Seq::new(v.len(), |i: int| v[i]@)
}

/// What one non-blank trimmed listing line names: an installed marker on
/// the tail flags the image, and the name is the line with every trailing
/// marker removed and trimmed again.
pub open spec fn image_of_line(t: Seq<char>) -> VmImageView {
    if "(installed)"@.is_suffix_of(t) {
        VmImageView { name: trim_seq(strip_suffix_all(t, "(installed)"@)), installed: true }
    } else {
        VmImageView { name: t, installed: false }
    }
}

/// The images of the listing's lines: each non-blank line names one.
pub open spec fn images_of_lines(lines: Seq<Seq<char>>) -> Seq<VmImageView>
    decreases lines.len(),
{
    if lines.len() == 0 {
        Seq::empty()
    } else {
        let t = trim_seq(lines[0]);
        (if t.len() == 0 {
            Seq::empty()
        } else {
            seq![image_of_line(t)]
        }) + images_of_lines(lines.skip(1))
    }
}

/// Reads the helper's image listing, exactly as `images_of_lines`
/// describes.
#[verifier::loop_isolation(false)]
pub fn parse_image_list(output: &str) -> (r: Vec<VmImage>)
    ensures
        views_of_images(r@) == images_of_lines(split_lines(output@)),
{
    let lines = lines_of(output);
    let ghost lviews = split_lines(output@);
    let mut r: Vec<VmImage> = Vec::new();
    let n = lines.len();
    let mut i: usize = 0;
    proof {
        assert(lviews.skip(0) =~= lviews);
        assert(views_of_images(r@) =~= Seq::<VmImageView>::empty());
    }
    while i < n
        invariant
            0 <= i <= n,
            images_of_lines(lviews) == views_of_images(r@) + images_of_lines(
                lviews.skip(i as int),
            ),
        decreases n - i,
    {
        let line = &lines[i];
        let ghost lv = lviews[i as int];
        proof {
            assert(line@ == lv);
            assert(lviews.skip(i as int)[0] == lv);
            assert(lviews.skip(i as int).skip(1) =~= lviews.skip(i + 1));
        }
        let ghost rpre = r@;
        let t = str_trim(line.as_str());
        if t.unicode_len() > 0 {
            let installed = str_ends_with(t, "(installed)");
            let name = if installed {
                String::from_str(str_trim(str_strip_suffix_all(t, "(installed)")))
            } else {
                String::from_str(t)
            };
            r.push(VmImage { name, installed });
            proof {
                assert(views_of_images(r@) =~= views_of_images(rpre).push(image_of_line(t@)));
            }
        }
        i = i + 1;
    }
    proof {
        assert(lviews.skip(n as int) =~= Seq::<Seq<char>>::empty());
        assert(views_of_images(r@) + Seq::<VmImageView>::empty() =~= views_of_images(r@));
    }
    r
}

/// The installed packages of the helper's package listing: each line
/// trimmed, blank lines dropped.
pub open spec fn packages_of_lines(lines: Seq<Seq<char>>) -> Seq<Seq<char>>
    decreases lines.len(),
{
    if lines.len() == 0 {
        Seq::empty()
    } else {
        let t = trim_seq(lines[0]);
        (if t.len() == 0 {
            Seq::empty()
        } else {
            seq![t]
        }) + packages_of_lines(lines.skip(1))
    }
}

/// Reads the helper's package listing, exactly as `packages_of_lines`
/// describes.
#[verifier::loop_isolation(false)]
pub fn parse_package_list(output: &str) -> (r: Vec<String>)
    ensures
        views_of_strings(r@) == packages_of_lines(split_lines(output@)),
{
    let lines = lines_of(output);
    let ghost lviews = split_lines(output@);
    let mut r: Vec<String> = Vec::new();
    let n = lines.len();
    let mut i: usize = 0;
    proof {
        assert(lviews.skip(0) =~= lviews);
        assert(views_of_strings(r@) =~= Seq::<Seq<char>>::empty());
    }
    while i < n
        invariant
            0 <= i <= n,
            packages_of_lines(lviews) == views_of_strings(r@) + packages_of_lines(
                lviews.skip(i as int),
            ),
        decreases n - i,
    {
        let line = &lines[i];
        let ghost lv = lviews[i as int];
        proof {
            assert(line@ == lv);
            assert(lviews.skip(i as int)[0] == lv);
            assert(lviews.skip(i as int).skip(1) =~= lviews.skip(i + 1));
        }
        let ghost rpre = r@;
        let t = str_trim(line.as_str());
        if t.unicode_len() > 0 {
            r.push(String::from_str(t));
            proof {
                assert(views_of_strings(r@) =~= views_of_strings(rpre).push(t@));
            }
        }
        i = i + 1;
    }
    proof {
        assert(lviews.skip(n as int) =~= Seq::<Seq<char>>::empty());
        assert(views_of_strings(r@) + Seq::<Seq<char>>::empty() =~= views_of_strings(r@));
    }
    r
}

/// Whether an installed image must be reinstalled, from the two version
/// files: no desired version means nothing to do; a desired version without
/// an installed one means a pending reinstall; otherwise the trimmed
/// versions must agree.
pub fn version_mismatch(desired: Option<&str>, installed: Option<&str>) -> (r: bool)
    ensures
        ({
            match (desired, installed) {
                (None, _) => r == false,
                (Some(_), None) => r == true,
                (Some(d), Some(i)) => r == (trim_seq(d@) != trim_seq(i@)),
            }
        }),
{
    match (desired, installed) {
        (None, _) => false,
        (Some(_), None) => true,
        (Some(d), Some(i)) => !str_eq(str_trim(d), str_trim(i)),
    }
}

} // verus!
