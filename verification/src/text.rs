//! Verified character-level utilities over `&str` views.
//!
//! The probe outputs and helper replies this library reasons about are plain
//! text; every scan over them is written here once, with a contract over the
//! `Seq<char>` view, and reused by the parsing and classification code.

use vstd::prelude::*;

verus! {

/// `p` occurs in `s` starting exactly at position `i`.
pub open spec fn matches_at(s: Seq<char>, p: Seq<char>, i: int) -> bool {
    0 <= i && i + p.len() <= s.len() && s.subrange(i, i + p.len()) == p
}

/// `p` occurs somewhere in `s`.
pub open spec fn contains_seq(s: Seq<char>, p: Seq<char>) -> bool {
    exists|i: int| matches_at(s, p, i)
}

/// Character equality spelled over code points so that no chain of derived
/// trait impls stands between the executable comparison and the spec.
pub fn str_eq(a: &str, b: &str) -> (r: bool)
    ensures
        r == (a@ == b@),
{
    let alen = a.unicode_len();
    let blen = b.unicode_len();
    if alen != blen {
        return false;
    }
    let mut i: usize = 0;
    while i < alen
        invariant
            0 <= i <= alen,
            alen == a@.len(),
            alen == b@.len(),
            forall|j: int| 0 <= j < i ==> a@[j] == b@[j],
        decreases alen - i,
    {
        if a.get_char(i) != b.get_char(i) {
            return false;
        }
        i = i + 1;
    }
    proof {
        assert(a@ =~= b@);
    }
    true
}

/// Substring search: whether `p` occurs anywhere in `s`.
pub fn str_contains(s: &str, p: &str) -> (r: bool)
    ensures
        r == contains_seq(s@, p@),
{
    let slen = s.unicode_len();
    let plen = p.unicode_len();
    if plen > slen {
        return false;
    }
    if plen == 0 {
        proof {
            assert(s@.subrange(0, 0) =~= p@);
            assert(matches_at(s@, p@, 0));
        }
        return true;
    }
    let mut i: usize = 0;
    while i <= slen - plen
        invariant
            0 <= i <= slen - plen + 1,
            plen == p@.len(),
            slen == s@.len(),
            0 < plen <= slen,
            forall|j: int| 0 <= j < i ==> !matches_at(s@, p@, j),
        decreases slen - plen - i + 1,
    {
        let mut j: usize = 0;
        let mut hit = true;
        while hit && j < plen
            invariant
                0 <= j <= plen,
                plen == p@.len(),
                slen == s@.len(),
                0 <= i,
                i + plen <= slen,
                hit ==> forall|t: int| 0 <= t < j ==> s@[i + t] == p@[t],
                !hit ==> !matches_at(s@, p@, i as int),
            decreases plen - j,
        {
            if s.get_char(i + j) != p.get_char(j) {
                proof {
                    assert(!matches_at(s@, p@, i as int)) by {
                        if matches_at(s@, p@, i as int) {
                            assert(s@.subrange(i as int, i + p@.len())[j as int] == s@[i + j]);
                        }
                    }
                }
                hit = false;
                j = plen;
            } else {
                j = j + 1;
            }
        }
        if hit {
            proof {
                assert(s@.subrange(i as int, i + p@.len()) =~= p@);
                assert(matches_at(s@, p@, i as int));
            }
            return true;
        }
        i = i + 1;
    }
    proof {
        assert forall|j: int| !matches_at(s@, p@, j) by {
            if matches_at(s@, p@, j) {
                assert(0 <= j < i);
            }
        }
    }
    false
}

/// ASCII upper-case letter.
pub open spec fn is_ascii_upper(c: char) -> bool {
    'A' <= c && c <= 'Z'
}

/// Character equality up to ASCII case: equal outright, or the same letter
/// with one side upper-case (an upper-case letter sits 32 code points below
/// its lower-case form).
pub open spec fn chars_eq_ci(a: char, b: char) -> bool {
    ||| a == b
    ||| (is_ascii_upper(a) && b as int == a as int + 32)
    ||| (is_ascii_upper(b) && a as int == b as int + 32)
}

/// `p` occurs in `s` at position `i` up to ASCII case.
pub open spec fn matches_at_ci(s: Seq<char>, p: Seq<char>, i: int) -> bool {
    &&& 0 <= i
    &&& i + p.len() <= s.len()
    &&& forall|j: int| 0 <= j < p.len() ==> chars_eq_ci(s[i + j], #[trigger] p[j])
}

/// `p` occurs somewhere in `s` up to ASCII case.
pub open spec fn contains_ci(s: Seq<char>, p: Seq<char>) -> bool {
    exists|i: int| matches_at_ci(s, p, i)
}

fn char_eq_ci(a: char, b: char) -> (r: bool)
    ensures
        r == chars_eq_ci(a, b),
{
    if a == b {
        true
    } else if 'A' <= a && a <= 'Z' && (b as u32) == (a as u32) + 32 {
        true
    } else if 'A' <= b && b <= 'Z' && (a as u32) == (b as u32) + 32 {
        true
    } else {
        false
    }
}

/// Case-insensitive substring search (ASCII case folding).
pub fn str_contains_ci(s: &str, p: &str) -> (r: bool)
    ensures
        r == contains_ci(s@, p@),
{
    let slen = s.unicode_len();
    let plen = p.unicode_len();
    if plen > slen {
        return false;
    }
    if plen == 0 {
        proof {
            assert(matches_at_ci(s@, p@, 0));
        }
        return true;
    }
    let mut i: usize = 0;
    while i <= slen - plen
        invariant
            0 <= i <= slen - plen + 1,
            plen == p@.len(),
            slen == s@.len(),
            0 < plen <= slen,
            forall|j: int| 0 <= j < i ==> !matches_at_ci(s@, p@, j),
        decreases slen - plen - i + 1,
    {
        let mut j: usize = 0;
        let mut hit = true;
        while hit && j < plen
            invariant
                0 <= j <= plen,
                plen == p@.len(),
                slen == s@.len(),
                0 <= i,
                i + plen <= slen,
                hit ==> forall|t: int| 0 <= t < j ==> chars_eq_ci(s@[i + t], #[trigger] p@[t]),
                !hit ==> !matches_at_ci(s@, p@, i as int),
            decreases plen - j,
        {
            if !char_eq_ci(s.get_char(i + j), p.get_char(j)) {
                hit = false;
                j = plen;
            } else {
                j = j + 1;
            }
        }
        if hit {
            proof {
                assert(matches_at_ci(s@, p@, i as int));
            }
            return true;
        }
        i = i + 1;
    }
    proof {
        assert forall|j: int| !matches_at_ci(s@, p@, j) by {
            if matches_at_ci(s@, p@, j) {
                assert(0 <= j < i);
            }
        }
    }
    false
}

/// First position of `c` in `s` at or after `from`.
pub fn find_char(s: &str, c: char, from: usize) -> (r: Option<usize>)
    requires
        from <= s@.len(),
    ensures
        r matches Some(i) ==> from <= i < s@.len() && s@[i as int] == c && (forall|j: int|
            from <= j < i ==> s@[j] != c),
        r is None ==> forall|j: int| from <= j < s@.len() ==> s@[j] != c,
{
    let n = s.unicode_len();
    let mut i: usize = from;
    while i < n
        invariant
            from <= i <= n,
            n == s@.len(),
            forall|j: int| from <= j < i ==> s@[j] != c,
        decreases n - i,
    {
        if s.get_char(i) == c {
            return Some(i);
        }
        i = i + 1;
    }
    None
}

/// Whitespace for the purposes of the probe-output formats this library
/// reads: blanks, tabs and line ends.
pub open spec fn is_space(c: char) -> bool {
    c == ' ' || c == '\t' || c == '\r' || c == '\n'
}

fn space_char(c: char) -> (r: bool)
    ensures
        r == is_space(c),
{
    c == ' ' || c == '\t' || c == '\r' || c == '\n'
}

/// Position of the first non-space character at or after `from`, or the
/// length of `s`.
pub open spec fn skip_spaces(s: Seq<char>, from: int) -> int
    decreases s.len() - from when 0 <= from <= s.len()
{
    if from >= s.len() {
        s.len() as int
    } else if is_space(s[from]) {
        skip_spaces(s, from + 1)
    } else {
        from
    }
}

/// Position of the first space character at or after `from`, or the length
/// of `s`.
pub open spec fn token_end(s: Seq<char>, from: int) -> int
    decreases s.len() - from when 0 <= from <= s.len()
{
    if from >= s.len() {
        s.len() as int
    } else if is_space(s[from]) {
        from
    } else {
        token_end(s, from + 1)
    }
}

pub proof fn lemma_skip_spaces(s: Seq<char>, from: int)
    requires
        0 <= from <= s.len(),
    ensures
        from <= skip_spaces(s, from) <= s.len(),
        forall|j: int| from <= j < skip_spaces(s, from) ==> is_space(s[j]),
        skip_spaces(s, from) < s.len() ==> !is_space(s[skip_spaces(s, from)]),
    decreases s.len() - from,
{
    if from < s.len() && is_space(s[from]) {
        lemma_skip_spaces(s, from + 1);
    }
}

pub proof fn lemma_token_end(s: Seq<char>, from: int)
    requires
        0 <= from <= s.len(),
    ensures
        from <= token_end(s, from) <= s.len(),
        forall|j: int| from <= j < token_end(s, from) ==> !is_space(s[j]),
        token_end(s, from) < s.len() ==> is_space(s[token_end(s, from)]),
    decreases s.len() - from,
{
    if from < s.len() && !is_space(s[from]) {
        lemma_token_end(s, from + 1);
    }
}

/// The view of `s` with leading and trailing whitespace removed.
pub open spec fn trim_seq(s: Seq<char>) -> Seq<char> {
    let a = skip_spaces(s, 0);
    let b = trim_end_idx(s, s.len() as int);
    if a <= b {
        s.subrange(a, b)
    } else {
        Seq::empty()
    }
}

/// Position after the last non-space character strictly before `upto`.
pub open spec fn trim_end_idx(s: Seq<char>, upto: int) -> int
    decreases upto when 0 <= upto <= s.len()
{
    if upto <= 0 {
        0
    } else if is_space(s[upto - 1]) {
        trim_end_idx(s, upto - 1)
    } else {
        upto
    }
}

pub proof fn lemma_trim_end_idx(s: Seq<char>, upto: int)
    requires
        0 <= upto <= s.len(),
    ensures
        0 <= trim_end_idx(s, upto) <= upto,
        forall|j: int| trim_end_idx(s, upto) <= j < upto ==> is_space(s[j]),
        trim_end_idx(s, upto) > 0 ==> !is_space(s[trim_end_idx(s, upto) - 1]),
    decreases upto,
{
    if upto > 0 && is_space(s[upto - 1]) {
        lemma_trim_end_idx(s, upto - 1);
    }
}

/// Removes leading and trailing whitespace.
pub fn str_trim<'a>(s: &'a str) -> (r: &'a str)
    ensures
        r@ == trim_seq(s@),
{
    let n = s.unicode_len();
    let mut a: usize = 0;
    while a < n && space_char(s.get_char(a))
        invariant
            0 <= a <= n,
            n == s@.len(),
            forall|j: int| 0 <= j < a ==> is_space(s@[j]),
            skip_spaces(s@, a as int) == skip_spaces(s@, 0),
        decreases n - a,
    {
        a = a + 1;
    }
    proof {
        assert(skip_spaces(s@, 0) == a as int);
    }
    let mut b: usize = n;
    while b > a && space_char(s.get_char(b - 1))
        invariant
            a <= b <= n,
            n == s@.len(),
            forall|j: int| b <= j < n ==> is_space(s@[j]),
            trim_end_idx(s@, b as int) == trim_end_idx(s@, n as int),
        decreases b,
    {
        b = b - 1;
    }
    proof {
        if b > a {
            assert(!is_space(s@[b - 1]));
            assert(trim_end_idx(s@, b as int) == b as int);
            assert(trim_seq(s@) == s@.subrange(a as int, b as int));
        } else {
            // both scans met: every character is whitespace
            if a < n {
                assert(is_space(s@[a as int]));
                assert(false);
            }
            assert(a == n && b == n || a == b);
            assert(forall|j: int| 0 <= j < s@.len() ==> is_space(s@[j]));
            assert(trim_end_idx(s@, s@.len() as int) == 0) by {
                lemma_trim_end_idx(s@, s@.len() as int);
                let e = trim_end_idx(s@, s@.len() as int);
                if e > 0 {
                    assert(!is_space(s@[e - 1]));
                }
            }
            assert(trim_seq(s@) =~= Seq::<char>::empty());
            assert(s@.subrange(a as int, b as int) =~= Seq::<char>::empty());
        }
    }
    s.substring_char(a, b)
}

/// Whether `p` is a suffix of `s`, matching `Seq::is_suffix_of` on the views.
pub fn str_ends_with(s: &str, p: &str) -> (r: bool)
    ensures
        r == p@.is_suffix_of(s@),
{
    let slen = s.unicode_len();
    let plen = p.unicode_len();
    if plen > slen {
        return false;
    }
    let mut j: usize = 0;
    while j < plen
        invariant
            0 <= j <= plen,
            plen == p@.len(),
            slen == s@.len(),
            plen <= slen,
            forall|t: int| 0 <= t < j ==> s@[slen - plen + t] == p@[t],
        decreases plen - j,
    {
        if s.get_char(slen - plen + j) != p.get_char(j) {
            proof {
                assert(!p@.is_suffix_of(s@)) by {
                    if p@.is_suffix_of(s@) {
                        assert(s@.subrange(slen - plen, slen as int)[j as int] == s@[slen - plen
                            + j]);
                    }
                }
            }
            return false;
        }
        j = j + 1;
    }
    proof {
        assert(p@ =~= s@.subrange(slen - plen, slen as int));
    }
    true
}

/// First position where `p` occurs in `s`.
pub fn find_str(s: &str, p: &str) -> (r: Option<usize>)
    ensures
        r matches Some(i) ==> matches_at(s@, p@, i as int) && (forall|j: int|
            0 <= j < i ==> !matches_at(s@, p@, j)),
        r is None ==> forall|j: int| !matches_at(s@, p@, j),
{
    let slen = s.unicode_len();
    let plen = p.unicode_len();
    if plen > slen {
        return None;
    }
    if plen == 0 {
        proof {
            assert(s@.subrange(0, 0) =~= p@);
            assert(matches_at(s@, p@, 0));
        }
        return Some(0);
    }
    let mut i: usize = 0;
    while i <= slen - plen
        invariant
            0 <= i <= slen - plen + 1,
            plen == p@.len(),
            slen == s@.len(),
            0 < plen <= slen,
            forall|j: int| 0 <= j < i ==> !matches_at(s@, p@, j),
        decreases slen - plen - i + 1,
    {
        let mut j: usize = 0;
        let mut hit = true;
        while hit && j < plen
            invariant
                0 <= j <= plen,
                plen == p@.len(),
                slen == s@.len(),
                0 <= i,
                i + plen <= slen,
                hit ==> forall|t: int| 0 <= t < j ==> s@[i + t] == p@[t],
                !hit ==> !matches_at(s@, p@, i as int),
            decreases plen - j,
        {
            if s.get_char(i + j) != p.get_char(j) {
                proof {
                    assert(!matches_at(s@, p@, i as int)) by {
                        if matches_at(s@, p@, i as int) {
                            assert(s@.subrange(i as int, i + p@.len())[j as int] == s@[i + j]);
                        }
                    }
                }
                hit = false;
                j = plen;
            } else {
                j = j + 1;
            }
        }
        if hit {
            proof {
                assert(s@.subrange(i as int, i + p@.len()) =~= p@);
                assert(matches_at(s@, p@, i as int));
            }
            return Some(i);
        }
        i = i + 1;
    }
    proof {
        assert forall|j: int| !matches_at(s@, p@, j) by {
            if matches_at(s@, p@, j) {
                assert(0 <= j < i);
            }
        }
    }
    None
}

/// Character-sequence equality up to ASCII case.
pub open spec fn seq_eq_ci(a: Seq<char>, b: Seq<char>) -> bool {
    a.len() == b.len() && forall|i: int| 0 <= i < a.len() ==> chars_eq_ci(a[i], #[trigger] b[i])
}

/// String equality up to ASCII case.
pub fn str_eq_ci(a: &str, b: &str) -> (r: bool)
    ensures
        r == seq_eq_ci(a@, b@),
{
    let alen = a.unicode_len();
    let blen = b.unicode_len();
    if alen != blen {
        return false;
    }
    let mut i: usize = 0;
    while i < alen
        invariant
            0 <= i <= alen,
            alen == a@.len(),
            alen == b@.len(),
            forall|j: int| 0 <= j < i ==> chars_eq_ci(a@[j], #[trigger] b@[j]),
        decreases alen - i,
    {
        if !char_eq_ci(a.get_char(i), b.get_char(i)) {
            return false;
        }
        i = i + 1;
    }
    true
}

/// ASCII decimal digit.
pub open spec fn is_digit(c: char) -> bool {
    '0' <= c && c <= '9'
}

/// The numeric value of a digit.
pub open spec fn digit_val(c: char) -> nat {
    (c as int - 48) as nat
}

/// Every character is a digit.
pub open spec fn all_digits(s: Seq<char>) -> bool {
    forall|i: int| 0 <= i < s.len() ==> is_digit(#[trigger] s[i])
}

/// The value of a digit string read in base ten.
pub open spec fn digits_val(s: Seq<char>) -> nat
    decreases s.len(),
{
    if s.len() == 0 {
        0
    } else {
        digits_val(s.drop_last()) * 10 + digit_val(s.last())
    }
}

/// The value never shrinks as more digits are read.
pub proof fn lemma_digits_val_prefix(s: Seq<char>, i: int)
    requires
        0 <= i <= s.len(),
    ensures
        digits_val(s.take(i)) <= digits_val(s),
    decreases s.len() - i,
{
    if i < s.len() {
        assert(s.take(i + 1).drop_last() =~= s.take(i));
        assert(s.take(i + 1).last() == s[i]);
        assert(digits_val(s.take(i)) <= digits_val(s.take(i + 1)));
        lemma_digits_val_prefix(s, i + 1);
    } else {
        assert(s.take(i) =~= s);
    }
}

fn digit_char_exec(c: char) -> (r: bool)
    ensures
        r == is_digit(c),
{
    '0' <= c && c <= '9'
}

/// Reads a digit string in base ten.  `Some` exactly when the string is
/// non-empty, all digits, and its value fits.
#[verifier::loop_isolation(false)]
pub fn parse_u32(s: &str) -> (r: Option<u32>)
    ensures
        r is Some <==> s@.len() > 0 && all_digits(s@) && digits_val(s@) <= u32::MAX,
        r matches Some(v) ==> v == digits_val(s@),
{
    let n = s.unicode_len();
    if n == 0 {
        return None;
    }
    let mut acc: u64 = 0;
    let mut i: usize = 0;
    while i < n
        invariant
            0 <= i <= n,
            all_digits(s@.take(i as int)),
            acc == digits_val(s@.take(i as int)),
            acc <= u32::MAX,
        decreases n - i,
    {
        let c = s.get_char(i);
        if !digit_char_exec(c) {
            return None;
        }
        let d = (c as u32) - 48;
        let next: u64 = acc * 10 + (d as u64);
        proof {
            assert(s@.take(i + 1).drop_last() =~= s@.take(i as int));
            assert(s@.take(i + 1).last() == s@[i as int]);
            assert(next == digits_val(s@.take(i + 1)));
        }
        if next > 0xffff_ffff {
            proof {
                lemma_digits_val_prefix(s@, i + 1);
                assert(s@.take(n as int) =~= s@);
            }
            return None;
        }
        acc = next;
        i = i + 1;
    }
    proof {
        assert(s@.take(n as int) =~= s@);
    }
    Some(acc as u32)
}

/// Whether every character of `s` is a decimal digit (an empty string
/// counts).
pub fn str_all_digits(s: &str) -> (r: bool)
    ensures
        r == all_digits(s@),
{
    let n = s.unicode_len();
    let mut i: usize = 0;
    while i < n
        invariant
            0 <= i <= n,
            n == s@.len(),
            forall|j: int| 0 <= j < i ==> is_digit(#[trigger] s@[j]),
        decreases n - i,
    {
        if !digit_char_exec(s.get_char(i)) {
            return false;
        }
        i = i + 1;
    }
    true
}

/// The view of `s` with every leading `c` removed.
pub open spec fn strip_leading(s: Seq<char>, c: char) -> Seq<char>
    decreases s.len(),
{
    if s.len() > 0 && s[0] == c {
        strip_leading(s.skip(1), c)
    } else {
        s
    }
}

pub proof fn lemma_strip_leading_at(s: Seq<char>, c: char, i: int)
    requires
        0 <= i <= s.len(),
        forall|j: int| 0 <= j < i ==> s[j] == c,
        i < s.len() ==> s[i] != c,
    ensures
        strip_leading(s, c) == s.skip(i),
    decreases i,
{
    if i == 0 {
        assert(s.skip(0) =~= s);
    } else {
        assert(s[0] == c);
        lemma_strip_leading_at(s.skip(1), c, i - 1);
        assert(s.skip(1).skip(i - 1) =~= s.skip(i));
    }
}

/// Removes every leading occurrence of `c`.
pub fn str_strip_leading<'a>(s: &'a str, c: char) -> (r: &'a str)
    ensures
        r@ == strip_leading(s@, c),
{
    let n = s.unicode_len();
    let mut i: usize = 0;
    while i < n && s.get_char(i) == c
        invariant
            0 <= i <= n,
            n == s@.len(),
            forall|j: int| 0 <= j < i ==> s@[j] == c,
        decreases n - i,
    {
        i = i + 1;
    }
    proof {
        lemma_strip_leading_at(s@, c, i as int);
        assert(s@.skip(i as int) =~= s@.subrange(i as int, n as int));
    }
    s.substring_char(i, n)
}

/// Index of the first occurrence of `c` at or after `from`, or the length
/// of `s`.
pub open spec fn char_index(s: Seq<char>, c: char, from: int) -> int
    decreases s.len() - from when 0 <= from <= s.len()
{
    if from >= s.len() {
        s.len() as int
    } else if s[from] == c {
        from
    } else {
        char_index(s, c, from + 1)
    }
}

pub proof fn lemma_char_index_unique(s: Seq<char>, c: char, from: int, e: int)
    requires
        0 <= from <= e <= s.len(),
        forall|j: int| from <= j < e ==> s[j] != c,
        e < s.len() ==> s[e] == c,
    ensures
        char_index(s, c, from) == e,
    decreases e - from,
{
    if from < e {
        lemma_char_index_unique(s, c, from + 1, e);
    }
}

/// Index of the first occurrence of pattern `p` at or after `from`, or the
/// length of `s` when there is none.
pub open spec fn pat_index(s: Seq<char>, p: Seq<char>, from: int) -> int
    decreases s.len() - from when 0 <= from <= s.len()
{
    if from >= s.len() || from + p.len() > s.len() {
        s.len() as int
    } else if matches_at(s, p, from) {
        from
    } else {
        pat_index(s, p, from + 1)
    }
}

pub proof fn lemma_pat_index_found(s: Seq<char>, p: Seq<char>, from: int, e: int)
    requires
        0 <= from <= e,
        matches_at(s, p, e),
        forall|j: int| from <= j < e ==> !matches_at(s, p, j),
    ensures
        pat_index(s, p, from) == e,
    decreases e - from,
{
    if from < e {
        lemma_pat_index_found(s, p, from + 1, e);
    }
}

pub proof fn lemma_pat_index_none(s: Seq<char>, p: Seq<char>, from: int)
    requires
        0 <= from <= s.len(),
        p.len() > 0,
        forall|j: int| !matches_at(s, p, j),
    ensures
        pat_index(s, p, from) == s.len(),
    decreases s.len() - from,
{
    if from + p.len() <= s.len() {
        lemma_pat_index_none(s, p, from + 1);
    }
}

/// The tokens joined back with single blanks.
pub open spec fn join_sp(parts: Seq<Seq<char>>) -> Seq<char>
    decreases parts.len(),
{
    if parts.len() == 0 {
        Seq::empty()
    } else if parts.len() == 1 {
        parts[0]
    } else {
        parts[0] + " "@ + join_sp(parts.skip(1))
    }
}

pub proof fn lemma_join_sp_push(parts: Seq<Seq<char>>, x: Seq<char>)
    ensures
        join_sp(parts.push(x)) == if parts.len() == 0 {
            x
        } else {
            join_sp(parts) + " "@ + x
        },
    decreases parts.len(),
{
    if parts.len() == 0 {
        assert(parts.push(x)[0] == x);
    } else if parts.len() == 1 {
        assert(parts.push(x).skip(1) =~= seq![x]);
        assert(parts.push(x)[0] == parts[0]);
        assert(join_sp(seq![x]) == x);
    } else {
        assert(parts.push(x).skip(1) =~= parts.skip(1).push(x));
        lemma_join_sp_push(parts.skip(1), x);
        assert(parts.push(x)[0] == parts[0]);
    }
}

/// Joins owned strings with single blanks, exactly as `join_sp` describes.
#[verifier::loop_isolation(false)]
pub fn join_spaces(parts: &Vec<String>, from: usize, upto: usize) -> (r: String)
    requires
        from <= upto <= parts@.len(),
    ensures
        r@ == join_sp(views_of_strings(parts@).subrange(from as int, upto as int)),
{
    let ghost all = views_of_strings(parts@).subrange(from as int, upto as int);
    let mut r = String::new();
    if from >= upto {
        proof {
            assert(all =~= Seq::<Seq<char>>::empty());
        }
        return r;
    }
    r.append(parts[from].as_str());
    proof {
        assert(all.take(1) =~= seq![parts@[from as int]@]);
        assert(r@ == join_sp(all.take(1)));
    }
    let mut i: usize = from + 1;
    while i < upto
        invariant
            from + 1 <= i <= upto,
            r@ == join_sp(all.take(i - from)),
        decreases upto - i,
    {
        r.append(" ");
        r.append(parts[i].as_str());
        proof {
            assert(all.take(i - from + 1) =~= all.take(i - from).push(parts@[i as int]@));
            lemma_join_sp_push(all.take(i - from), parts@[i as int]@);
        }
        i = i + 1;
    }
    proof {
        assert(all.take(upto - from) =~= all);
    }
    r
}

/// The view of `s` with every trailing `c` removed.
pub open spec fn strip_trailing(s: Seq<char>, c: char) -> Seq<char>
    decreases s.len(),
{
    if s.len() > 0 && s.last() == c {
        strip_trailing(s.drop_last(), c)
    } else {
        s
    }
}

pub proof fn lemma_strip_trailing_at(s: Seq<char>, c: char, i: int)
    requires
        0 <= i <= s.len(),
        forall|j: int| i <= j < s.len() ==> s[j] == c,
        i > 0 ==> s[i - 1] != c,
    ensures
        strip_trailing(s, c) == s.take(i),
    decreases s.len() - i,
{
    if i == s.len() {
        assert(s.take(i) =~= s);
    } else {
        assert(s.last() == c);
        assert(s.drop_last() =~= s.take(s.len() - 1));
        lemma_strip_trailing_at(s.take(s.len() - 1), c, i);
        assert(s.take(s.len() - 1).take(i) =~= s.take(i));
    }
}

/// Removes every trailing occurrence of `c`.
pub fn str_strip_trailing<'a>(s: &'a str, c: char) -> (r: &'a str)
    ensures
        r@ == strip_trailing(s@, c),
{
    let n = s.unicode_len();
    let mut i: usize = n;
    while i > 0 && s.get_char(i - 1) == c
        invariant
            0 <= i <= n,
            n == s@.len(),
            forall|j: int| i <= j < n ==> s@[j] == c,
        decreases i,
    {
        i = i - 1;
    }
    proof {
        lemma_strip_trailing_at(s@, c, i as int);
        assert(s@.take(i as int) =~= s@.subrange(0, i as int));
    }
    s.substring_char(0, i)
}

/// The view of `s` with every leading occurrence of the pattern `p`
/// removed.
pub open spec fn strip_prefix_all(s: Seq<char>, p: Seq<char>) -> Seq<char>
    decreases s.len(),
{
    if p.len() > 0 && p.is_prefix_of(s) {
        strip_prefix_all(s.skip(p.len() as int), p)
    } else {
        s
    }
}

/// Removes every leading occurrence of the pattern `p`.
pub fn str_strip_prefix_all<'a>(s: &'a str, p: &str) -> (r: &'a str)
    ensures
        r@ == strip_prefix_all(s@, p@),
{
    let plen = p.unicode_len();
    let mut cur: &str = s;
    let mut curlen = s.unicode_len();
    if plen == 0 {
        return s;
    }
    while str_starts_with(cur, p)
        invariant
            curlen == cur@.len(),
            p@.len() == plen,
            plen > 0,
            strip_prefix_all(cur@, p@) == strip_prefix_all(s@, p@),
        decreases cur@.len(),
    {
        proof {
            assert(cur@.skip(plen as int) =~= cur@.subrange(plen as int, cur@.len() as int));
        }
        cur = cur.substring_char(plen, curlen);
        curlen = curlen - plen;
    }
    cur
}

/// The view of `s` with every trailing occurrence of the pattern `p`
/// removed.
pub open spec fn strip_suffix_all(s: Seq<char>, p: Seq<char>) -> Seq<char>
    decreases s.len(),
{
    if p.len() > 0 && p.is_suffix_of(s) {
        strip_suffix_all(s.take(s.len() - p.len()), p)
    } else {
        s
    }
}

/// Removes every trailing occurrence of the pattern `p`.
pub fn str_strip_suffix_all<'a>(s: &'a str, p: &str) -> (r: &'a str)
    ensures
        r@ == strip_suffix_all(s@, p@),
{
    let plen = p.unicode_len();
    let mut cur: &str = s;
    let mut curlen = s.unicode_len();
    if plen == 0 {
        return s;
    }
    while str_ends_with(cur, p)
        invariant
            curlen == cur@.len(),
            p@.len() == plen,
            plen > 0,
            strip_suffix_all(cur@, p@) == strip_suffix_all(s@, p@),
        decreases cur@.len(),
    {
        proof {
            assert(cur@.take(cur@.len() - plen) =~= cur@.subrange(0, cur@.len() - plen));
        }
        cur = cur.substring_char(0, curlen - plen);
        curlen = curlen - plen;
    }
    cur
}

/// Index of the first non-digit at or after `from`, or the length of `s`.
pub open spec fn digit_run_end(s: Seq<char>, from: int) -> int
    decreases s.len() - from when 0 <= from <= s.len()
{
    if from >= s.len() {
        s.len() as int
    } else if !is_digit(s[from]) {
        from
    } else {
        digit_run_end(s, from + 1)
    }
}

pub proof fn lemma_digit_run_end(s: Seq<char>, from: int)
    requires
        0 <= from <= s.len(),
    ensures
        from <= digit_run_end(s, from) <= s.len(),
        forall|j: int| from <= j < digit_run_end(s, from) ==> is_digit(s[j]),
        digit_run_end(s, from) < s.len() ==> !is_digit(s[digit_run_end(s, from)]),
    decreases s.len() - from,
{
    if from < s.len() && is_digit(s[from]) {
        lemma_digit_run_end(s, from + 1);
    }
}

/// Scans one digit run, exactly as `digit_run_end` describes.
pub fn digit_run(s: &str, from: usize) -> (r: usize)
    requires
        from <= s@.len(),
    ensures
        r == digit_run_end(s@, from as int),
{
    let n = s.unicode_len();
    let mut i: usize = from;
    while i < n && digit_char_exec(s.get_char(i))
        invariant
            from <= i <= n,
            n == s@.len(),
            digit_run_end(s@, i as int) == digit_run_end(s@, from as int),
        decreases n - i,
    {
        i = i + 1;
    }
    i
}

/// The lines joined back with line feeds.
pub open spec fn join_nl(lines: Seq<Seq<char>>) -> Seq<char>
    decreases lines.len(),
{
    if lines.len() == 0 {
        Seq::empty()
    } else if lines.len() == 1 {
        lines[0]
    } else {
        lines[0] + "\n"@ + join_nl(lines.skip(1))
    }
}

pub proof fn lemma_join_nl_push(lines: Seq<Seq<char>>, x: Seq<char>)
    ensures
        join_nl(lines.push(x)) == if lines.len() == 0 {
            x
        } else {
            join_nl(lines) + "\n"@ + x
        },
    decreases lines.len(),
{
    if lines.len() == 0 {
        assert(lines.push(x)[0] == x);
    } else if lines.len() == 1 {
        assert(lines.push(x).skip(1) =~= seq![x]);
        assert(lines.push(x)[0] == lines[0]);
        assert(join_nl(seq![x]) == x);
    } else {
        assert(lines.push(x).skip(1) =~= lines.skip(1).push(x));
        lemma_join_nl_push(lines.skip(1), x);
        assert(lines.push(x)[0] == lines[0]);
    }
}

/// The views of a sequence of owned strings.
pub open spec fn views_of_strings(v: Seq<String>) -> Seq<Seq<char>> {
    Seq::new(v.len(), |i: int| v[i]@)
}

/// Index of the first line feed at or after `from`, or the length of `s`.
pub open spec fn line_end(s: Seq<char>, from: int) -> int
    decreases s.len() - from when 0 <= from <= s.len()
{
    if from >= s.len() {
        s.len() as int
    } else if s[from] == '\n' {
        from
    } else {
        line_end(s, from + 1)
    }
}

pub proof fn lemma_line_end(s: Seq<char>, from: int)
    requires
        0 <= from <= s.len(),
    ensures
        from <= line_end(s, from) <= s.len(),
        forall|j: int| from <= j < line_end(s, from) ==> s[j] != '\n',
        line_end(s, from) < s.len() ==> s[line_end(s, from)] == '\n',
    decreases s.len() - from,
{
    if from < s.len() && s[from] != '\n' {
        lemma_line_end(s, from + 1);
    }
}

pub proof fn lemma_line_end_unique(s: Seq<char>, from: int, e: int)
    requires
        0 <= from <= e <= s.len(),
        forall|j: int| from <= j < e ==> s[j] != '\n',
        e < s.len() ==> s[e] == '\n',
    ensures
        line_end(s, from) == e,
    decreases e - from,
{
    if from < e {
        lemma_line_end_unique(s, from + 1, e);
    }
}

/// One line with a trailing carriage return removed, as `str::lines` does.
pub open spec fn trim_cr(l: Seq<char>) -> Seq<char> {
    if l.len() > 0 && l[l.len() - 1] == '\r' {
        l.drop_last()
    } else {
        l
    }
}

/// The lines of `s` from `from` on: split on line feeds, each line stripped
/// of one trailing carriage return, with no final empty line after a
/// trailing feed.
pub open spec fn split_lines_from(s: Seq<char>, from: int) -> Seq<Seq<char>>
    decreases s.len() - from when 0 <= from <= s.len()
    via split_lines_from_decreases
{
    if from >= s.len() {
        Seq::empty()
    } else {
        let e = line_end(s, from);
        seq![trim_cr(s.subrange(from, e))] + split_lines_from(
            s,
            if e < s.len() {
                e + 1
            } else {
                e
            },
        )
    }
}

#[via_fn]
proof fn split_lines_from_decreases(s: Seq<char>, from: int) {
    lemma_line_end(s, from);
}

/// The lines of `s`.
pub open spec fn split_lines(s: Seq<char>) -> Seq<Seq<char>> {
    split_lines_from(s, 0)
}

/// Splits into lines exactly as `split_lines` describes.
#[verifier::loop_isolation(false)]
pub fn lines_of(s: &str) -> (r: Vec<String>)
    ensures
        views_of_strings(r@) == split_lines(s@),
{
    let n = s.unicode_len();
    let mut r: Vec<String> = Vec::new();
    let mut pos: usize = 0;
    proof {
        assert(views_of_strings(r@) =~= Seq::<Seq<char>>::empty());
    }
    while pos < n
        invariant
            0 <= pos <= n,
            split_lines(s@) == views_of_strings(r@) + split_lines_from(s@, pos as int),
        decreases n - pos,
    {
        let ghost prev = r@;
        let start = pos;
        let end: usize;
        match find_char(s, '\n', pos) {
            Some(e) => {
                end = e;
                pos = e + 1;
            },
            None => {
                end = n;
                pos = n;
            },
        }
        proof {
            lemma_line_end_unique(s@, start as int, end as int);
        }
        let line = if end > start && s.get_char(end - 1) == '\r' {
            s.substring_char(start, end - 1)
        } else {
            s.substring_char(start, end)
        };
        proof {
            assert(line@ == trim_cr(s@.subrange(start as int, end as int))) by {
                let l = s@.subrange(start as int, end as int);
                if end > start && s@[end - 1] == '\r' {
                    assert(l[l.len() - 1] == s@[end - 1]);
                    assert(s@.subrange(start as int, end - 1) =~= l.drop_last());
                } else {
                    if l.len() > 0 {
                        assert(l[l.len() - 1] == s@[end - 1]);
                    }
                }
            }
        }
        r.push(String::from_str(line));
        proof {
            assert(views_of_strings(r@) =~= views_of_strings(prev) + seq![line@]);
            assert(split_lines_from(s@, start as int) == seq![
                trim_cr(s@.subrange(start as int, end as int)),
            ] + split_lines_from(s@, pos as int));
        }
    }
    proof {
        assert(split_lines_from(s@, pos as int) =~= Seq::<Seq<char>>::empty());
        assert(views_of_strings(r@) + Seq::<Seq<char>>::empty() =~= views_of_strings(r@));
    }
    r
}

/// The whitespace-separated tokens of `s` from `from` on.
pub open spec fn split_ws_from(s: Seq<char>, from: int) -> Seq<Seq<char>>
    decreases s.len() - from when 0 <= from <= s.len()
    via split_ws_from_decreases
{
    let st = skip_spaces(s, from);
    if st >= s.len() {
        Seq::empty()
    } else {
        let e = token_end(s, st);
        seq![s.subrange(st, e)] + split_ws_from(s, e)
    }
}

#[via_fn]
proof fn split_ws_from_decreases(s: Seq<char>, from: int) {
    lemma_skip_spaces(s, from);
    if skip_spaces(s, from) < s.len() {
        lemma_token_end(s, skip_spaces(s, from));
        assert(token_end(s, skip_spaces(s, from)) == token_end(s, skip_spaces(s, from) + 1));
    }
}

/// The whitespace-separated tokens of `s`.
pub open spec fn split_ws(s: Seq<char>) -> Seq<Seq<char>> {
    split_ws_from(s, 0)
}

pub proof fn lemma_token_end_unique(s: Seq<char>, from: int, e: int)
    requires
        0 <= from <= e <= s.len(),
        forall|j: int| from <= j < e ==> !is_space(s[j]),
        e < s.len() ==> is_space(s[e]),
    ensures
        token_end(s, from) == e,
    decreases e - from,
{
    if from < e {
        lemma_token_end_unique(s, from + 1, e);
    }
}

/// Splits into whitespace-separated tokens exactly as `split_ws` describes.
#[verifier::loop_isolation(false)]
pub fn tokens_of(s: &str) -> (r: Vec<String>)
    ensures
        views_of_strings(r@) == split_ws(s@),
{
    let n = s.unicode_len();
    let mut r: Vec<String> = Vec::new();
    let mut pos: usize = 0;
    proof {
        assert(views_of_strings(r@) =~= Seq::<Seq<char>>::empty());
    }
    while pos < n
        invariant
            0 <= pos <= n,
            split_ws(s@) == views_of_strings(r@) + split_ws_from(s@, pos as int),
        decreases n - pos,
    {
        if space_char(s.get_char(pos)) {
            proof {
                assert(skip_spaces(s@, pos as int) == skip_spaces(s@, pos + 1));
                assert(split_ws_from(s@, pos as int) == split_ws_from(s@, pos + 1));
            }
            pos = pos + 1;
        } else {
            let ghost prev = r@;
            let start = pos;
            let mut e = pos + 1;
            while e < n && !space_char(s.get_char(e))
                invariant
                    start < e <= n,
                    forall|j: int| start <= j < e ==> !is_space(s@[j]),
                decreases n - e,
            {
                e = e + 1;
            }
            proof {
                lemma_token_end_unique(s@, start as int, e as int);
                assert(skip_spaces(s@, start as int) == start as int);
            }
            let tok = s.substring_char(start, e);
            r.push(String::from_str(tok));
            pos = e;
            proof {
                assert(views_of_strings(r@) =~= views_of_strings(prev) + seq![tok@]);
                assert(split_ws_from(s@, start as int) == seq![
                    s@.subrange(start as int, e as int),
                ] + split_ws_from(s@, e as int));
            }
        }
    }
    proof {
        lemma_skip_spaces(s@, pos as int);
        assert(split_ws_from(s@, pos as int) =~= Seq::<Seq<char>>::empty());
        assert(views_of_strings(r@) + Seq::<Seq<char>>::empty() =~= views_of_strings(r@));
    }
    r
}

/// Whether `p` is a prefix of `s`, matching `Seq::is_prefix_of` on the views.
pub fn str_starts_with(s: &str, p: &str) -> (r: bool)
    ensures
        r == p@.is_prefix_of(s@),
{
    let slen = s.unicode_len();
    let plen = p.unicode_len();
    if plen > slen {
        return false;
    }
    let mut i: usize = 0;
    while i < plen
        invariant
            0 <= i <= plen,
            plen == p@.len(),
            slen == s@.len(),
            plen <= slen,
            forall|j: int| 0 <= j < i ==> s@[j] == p@[j],
        decreases plen - i,
    {
        if s.get_char(i) != p.get_char(i) {
            assert(!p@.is_prefix_of(s@)) by {
                assert(s@.subrange(0, p@.len() as int)[i as int] == s@[i as int]);
            }
            return false;
        }
        i = i + 1;
    }
    proof {
        assert(p@ =~= s@.subrange(0, p@.len() as int));
    }
    true
}

} // verus!
