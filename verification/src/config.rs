//! VM configuration values and their validation.
//!
//! The helper persists its configuration itself; this module holds the
//! record the user edits, the bounds every update must satisfy, and the
//! helper command lines an update issues.  Reading the helper's own config
//! output back is serialization work and stays in the application.

use vstd::prelude::*;

use crate::text::char_index;
use crate::text::digit_run;
use crate::text::digit_run_end;
use crate::text::find_char;
use crate::text::join_nl;
use crate::text::lemma_char_index_unique;
use crate::text::lemma_join_nl_push;
use crate::text::lines_of;
use crate::text::seq_eq_ci;
use crate::text::split_lines;
use crate::text::str_eq;
use crate::text::str_eq_ci;
use crate::text::str_trim;
use crate::text::trim_seq;
use crate::text::views_of_strings;

verus! {

/// The user-visible VM configuration.
pub struct AppConfig {
    pub ram_mb: Option<u32>,
    pub vcpus: Option<u32>,
    pub log_level: Option<String>,
}

/// Smallest admissible VM memory size, in megabytes.
pub const MIN_RAM_MB: u32 = 256;

/// Largest admissible VM memory size, in megabytes.
pub const MAX_RAM_MB: u32 = 65536;

/// Smallest admissible virtual CPU count.
pub const MIN_VCPUS: u32 = 1;

/// Largest admissible virtual CPU count.
pub const MAX_VCPUS: u32 = 32;

/// The decimal digit for a value below ten.
pub open spec fn digit_char(d: nat) -> char {
    if d == 0 {
        '0'
    } else if d == 1 {
        '1'
    } else if d == 2 {
        '2'
    } else if d == 3 {
        '3'
    } else if d == 4 {
        '4'
    } else if d == 5 {
        '5'
    } else if d == 6 {
        '6'
    } else if d == 7 {
        '7'
    } else if d == 8 {
        '8'
    } else {
        '9'
    }
}

/// The decimal rendering of a number, most significant digit first, with no
/// leading zeros (zero itself rendered as one digit).
pub open spec fn dec_seq(n: nat) -> Seq<char>
    decreases n,
{
    if n < 10 {
        seq![digit_char(n)]
    } else {
        dec_seq(n / 10).push(digit_char(n % 10))
    }
}

fn digit_str(d: u32) -> (r: String)
    requires
        d < 10,
    ensures
        r@ == seq![digit_char(d as nat)],
{
    let s: &str = if d == 0 {
        "0"
    } else if d == 1 {
        "1"
    } else if d == 2 {
        "2"
    } else if d == 3 {
        "3"
    } else if d == 4 {
        "4"
    } else if d == 5 {
        "5"
    } else if d == 6 {
        "6"
    } else if d == 7 {
        "7"
    } else if d == 8 {
        "8"
    } else {
        "9"
    };
    proof {
        reveal_strlit("0");
        reveal_strlit("1");
        reveal_strlit("2");
        reveal_strlit("3");
        reveal_strlit("4");
        reveal_strlit("5");
        reveal_strlit("6");
        reveal_strlit("7");
        reveal_strlit("8");
        reveal_strlit("9");
        assert(s@ =~= seq![digit_char(d as nat)]);
    }
    String::from_str(s)
}

/// Renders a number in decimal, exactly as `dec_seq` describes.
pub fn u32_to_dec(n: u32) -> (r: String)
    ensures
        r@ == dec_seq(n as nat),
    decreases n,
{
    if n < 10 {
        digit_str(n)
    } else {
        let r = u32_to_dec(n / 10).concat(digit_str(n % 10).as_str());
        proof {
            assert(r@ =~= dec_seq(n as nat));
        }
        r
    }
}

/// The accepted log levels, quietest first.
pub open spec fn valid_log_level(s: Seq<char>) -> bool {
    ||| s == "off"@
    ||| s == "error"@
    ||| s == "warn"@
    ||| s == "info"@
    ||| s == "debug"@
    ||| s == "trace"@
}

/// Whether a log level name is one the helper accepts.
pub fn is_valid_log_level(level: &str) -> (r: bool)
    ensures
        r == valid_log_level(level@),
{
    str_eq(level, "off") || str_eq(level, "error") || str_eq(level, "warn") || str_eq(
        level,
        "info",
    ) || str_eq(level, "debug") || str_eq(level, "trace")
}

/// The name of a numeric log level: zero is off, five is trace.
pub fn log_level_name(level: i64) -> (r: Option<&'static str>)
    ensures
        (0 <= level <= 5) <==> r is Some,
        level == 0 ==> (r matches Some(s) && s@ == "off"@),
        level == 1 ==> (r matches Some(s) && s@ == "error"@),
        level == 2 ==> (r matches Some(s) && s@ == "warn"@),
        level == 3 ==> (r matches Some(s) && s@ == "info"@),
        level == 4 ==> (r matches Some(s) && s@ == "debug"@),
        level == 5 ==> (r matches Some(s) && s@ == "trace"@),
{
    if level == 0 {
        Some("off")
    } else if level == 1 {
        Some("error")
    } else if level == 2 {
        Some("warn")
    } else if level == 3 {
        Some("info")
    } else if level == 4 {
        Some("debug")
    } else if level == 5 {
        Some("trace")
    } else {
        None
    }
}

/// The views of a sequence of argument vectors.
pub open spec fn views_of_commands(v: Seq<Vec<String>>) -> Seq<Seq<Seq<char>>> {
    Seq::new(v.len(), |i: int| views_of_strings(v[i]@))
}

/// The helper command lines a configuration update issues, in order: memory
/// size, CPU count, log level, each only when requested.
pub open spec fn config_commands(
    ram_mb: Option<u32>,
    vcpus: Option<u32>,
    log_level: Option<Seq<char>>,
) -> Seq<Seq<Seq<char>>> {
    (match ram_mb {
        Some(ram) => seq![seq!["config"@, "-r"@, dec_seq(ram as nat)]],
        None => Seq::empty(),
    }) + (match vcpus {
        Some(cpus) => seq![seq!["config"@, "-n"@, dec_seq(cpus as nat)]],
        None => Seq::empty(),
    }) + (match log_level {
        Some(level) => seq![seq!["config"@, "-l"@, level]],
        None => Seq::empty(),
    })
}

/// An exponent tail starting at `i`: an exponent letter, an optional sign,
/// then digits to the end, at least one.
pub open spec fn exp_at(s: Seq<char>, i: int) -> bool {
    0 <= i < s.len() && (s[i] == 'e' || s[i] == 'E') && {
        let j = if i + 1 < s.len() && (s[i + 1] == '+' || s[i + 1] == '-') {
            i + 2
        } else {
            i + 1
        };
        j < s.len() && digit_run_end(s, j) == s.len()
    }
}

/// An unsigned decimal number: digits with an optional fraction, or a
/// fraction alone, with an optional exponent.
pub open spec fn numeric_mantissa_exp(s: Seq<char>) -> bool {
    let d1 = digit_run_end(s, 0);
    if d1 > 0 {
        if d1 == s.len() {
            true
        } else if s[d1] == '.' {
            let d2 = digit_run_end(s, d1 + 1);
            d2 == s.len() || exp_at(s, d2)
        } else {
            exp_at(s, d1)
        }
    } else {
        s.len() > 0 && s[0] == '.' && {
            let d2 = digit_run_end(s, 1);
            d2 > 1 && (d2 == s.len() || exp_at(s, d2))
        }
    }
}

/// What follows an optional sign in a numeric value: an infinity or
/// not-a-number word up to case, or a decimal number.
pub open spec fn numeric_after_sign(s: Seq<char>) -> bool {
    ||| seq_eq_ci(s, "inf"@)
    ||| seq_eq_ci(s, "infinity"@)
    ||| seq_eq_ci(s, "nan"@)
    ||| numeric_mantissa_exp(s)
}

/// A value Rust reads as an integer or floating-point number; the test the
/// config rewrite uses to leave a value unquoted.
pub open spec fn numeric_literal(s: Seq<char>) -> bool {
    if s.len() > 0 && (s[0] == '+' || s[0] == '-') {
        numeric_after_sign(s.skip(1))
    } else {
        numeric_after_sign(s)
    }
}

fn exp_check(s: &str, i: usize) -> (r: bool)
    requires
        i <= s@.len(),
    ensures
        r == exp_at(s@, i as int),
{
    let n = s.unicode_len();
    if i >= n {
        return false;
    }
    let c = s.get_char(i);
    if c != 'e' && c != 'E' {
        return false;
    }
    let j = if i + 1 < n && (s.get_char(i + 1) == '+' || s.get_char(i + 1) == '-') {
        i + 2
    } else {
        i + 1
    };
    if j >= n {
        return false;
    }
    digit_run(s, j) == n
}

fn numeric_body(s: &str) -> (r: bool)
    ensures
        r == numeric_after_sign(s@),
{
    if str_eq_ci(s, "inf") || str_eq_ci(s, "infinity") || str_eq_ci(s, "nan") {
        return true;
    }
    let n = s.unicode_len();
    let d1 = digit_run(s, 0);
    proof {
        crate::text::lemma_digit_run_end(s@, 0);
    }
    if d1 > 0 {
        if d1 == n {
            true
        } else if s.get_char(d1) == '.' {
            let d2 = digit_run(s, d1 + 1);
            proof {
                crate::text::lemma_digit_run_end(s@, d1 + 1);
            }
            d2 == n || exp_check(s, d2)
        } else {
            exp_check(s, d1)
        }
    } else if n > 0 && s.get_char(0) == '.' {
        let d2 = digit_run(s, 1);
        proof {
            crate::text::lemma_digit_run_end(s@, 1);
        }
        d2 > 1 && (d2 == n || exp_check(s, d2))
    } else {
        false
    }
}

/// Recognizes a numeric value, exactly as `numeric_literal` describes.
pub fn is_numeric_literal(v: &str) -> (r: bool)
    ensures
        r == numeric_literal(v@),
{
    let n = v.unicode_len();
    if n > 0 {
        let c = v.get_char(0);
        if c == '+' || c == '-' {
            let body = v.substring_char(1, n);
            proof {
                assert(body@ =~= v@.skip(1));
            }
            return numeric_body(body);
        }
    }
    numeric_body(v)
}

/// A value the rewrite leaves alone: empty, already quoted or structured,
/// a boolean word, or a number.
pub open spec fn value_is_plain(v: Seq<char>) -> bool {
    ||| v.len() == 0
    ||| v[0] == '"'
    ||| v[0] == '\''
    ||| v[0] == '['
    ||| v[0] == '{'
    ||| v == "true"@
    ||| v == "false"@
    ||| numeric_literal(v)
}

fn value_plain(v: &str) -> (r: bool)
    ensures
        r == value_is_plain(v@),
{
    let n = v.unicode_len();
    if n == 0 {
        return true;
    }
    let c = v.get_char(0);
    if c == '"' || c == '\'' || c == '[' || c == '{' {
        return true;
    }
    if str_eq(v, "true") || str_eq(v, "false") {
        return true;
    }
    is_numeric_literal(v)
}

/// One line of the helper's config output, rewritten: section headers,
/// blank lines and comments stay; on a key/value line a bare string value
/// is quoted; everything else stays.
pub open spec fn fixed_line(l: Seq<char>) -> Seq<char> {
    let t = trim_seq(l);
    if t.len() == 0 || t[0] == '[' || t[0] == '#' {
        l
    } else {
        let e = char_index(t, '=', 0);
        if e >= t.len() {
            l
        } else {
            let value = trim_seq(t.skip(e + 1));
            if value_is_plain(value) {
                l
            } else {
                trim_seq(t.take(e)) + " = \""@ + value + "\""@
            }
        }
    }
}

/// The whole config output rewritten line by line.
pub open spec fn fixed_config(s: Seq<char>) -> Seq<char> {
    join_nl(Seq::new(split_lines(s).len(), |i: int| fixed_line(split_lines(s)[i])))
}

/// Quotes bare string values in the helper's config output, which prints
/// `log_level = off` where TOML wants `log_level = "off"`, exactly as
/// `fixed_config` describes.
#[verifier::loop_isolation(false)]
pub fn fix_unquoted_strings(input: &str) -> (r: String)
    ensures
        r@ == fixed_config(input@),
{
    let lines = lines_of(input);
    let ghost lviews = split_lines(input@);
    let ghost fixed = Seq::new(lviews.len(), |i: int| fixed_line(lviews[i]));
    let n = lines.len();
    let mut out = String::new();
    let mut i: usize = 0;
    proof {
        assert(fixed.take(0) =~= Seq::<Seq<char>>::empty());
    }
    while i < n
        invariant
            0 <= i <= n,
            out@ == join_nl(fixed.take(i as int)),
        decreases n - i,
    {
        let line = &lines[i];
        let ghost lv = lviews[i as int];
        proof {
            assert(line@ == lv);
        }
        if i > 0 {
            out.append("\n");
        }
        let ghost out_pre = out@;
        let t = str_trim(line.as_str());
        let tn = t.unicode_len();
        let mut rewritten = false;
        if !(tn == 0 || t.get_char(0) == '[' || t.get_char(0) == '#') {
            match find_char(t, '=', 0) {
                Some(e) => {
                    proof {
                        lemma_char_index_unique(t@, '=', 0, e as int);
                    }
                    let value = str_trim(t.substring_char(e + 1, tn));
                    proof {
                        assert(t@.subrange(e + 1, tn as int) =~= t@.skip(e + 1));
                    }
                    if !value_plain(value) {
                        let key = str_trim(t.substring_char(0, e));
                        proof {
                            assert(t@.subrange(0, e as int) =~= t@.take(e as int));
                        }
                        out.append(key);
                        out.append(" = \"");
                        out.append(value);
                        out.append("\"");
                        rewritten = true;
                        proof {
                            assert(out@ == out_pre + fixed_line(lv));
                        }
                    }
                },
                None => {
                    proof {
                        lemma_char_index_unique(t@, '=', 0, t@.len() as int);
                    }
                },
            }
        }
        if !rewritten {
            out.append(line.as_str());
            proof {
                assert(out@ == out_pre + fixed_line(lv));
            }
        }
        proof {
            assert(fixed.take(i + 1) =~= fixed.take(i as int).push(fixed_line(lv)));
            lemma_join_nl_push(fixed.take(i as int), fixed_line(lv));
        }
        i = i + 1;
    }
    proof {
        assert(fixed.take(n as int) =~= fixed);
    }
    out
}

/// The requested memory size, if any, lies within the admissible range.
pub open spec fn ram_ok(ram_mb: Option<u32>) -> bool {
    match ram_mb {
        Some(ram) => MIN_RAM_MB <= ram <= MAX_RAM_MB,
        None => true,
    }
}

/// The requested CPU count, if any, lies within the admissible range.
pub open spec fn vcpus_ok(vcpus: Option<u32>) -> bool {
    match vcpus {
        Some(cpus) => MIN_VCPUS <= cpus <= MAX_VCPUS,
        None => true,
    }
}

/// The requested log level, if any, is a known name.
pub open spec fn level_ok(log_level: Option<Seq<char>>) -> bool {
    match log_level {
        Some(level) => valid_log_level(level),
        None => true,
    }
}

/// The report for a memory size out of range.
pub open spec fn ram_error_msg(ram_mb: Option<u32>) -> Seq<char> {
    match ram_mb {
        Some(ram) => "Invalid RAM value: "@ + dec_seq(ram as nat)
            + "MB. Must be between 256 and 65536 MB."@,
        None => Seq::empty(),
    }
}

/// The report for a CPU count out of range.
pub open spec fn vcpus_error_msg(vcpus: Option<u32>) -> Seq<char> {
    match vcpus {
        Some(cpus) => "Invalid vCPU value: "@ + dec_seq(cpus as nat)
            + ". Must be between 1 and 32."@,
        None => Seq::empty(),
    }
}

/// The report for an unknown log level.
pub open spec fn level_error_msg(log_level: Option<Seq<char>>) -> Seq<char> {
    match log_level {
        Some(level) => "Invalid log level: '"@ + level
            + "'. Valid options: [\"off\", \"error\", \"warn\", \"info\", \"debug\", \"trace\"]"@,
        None => Seq::empty(),
    }
}

/// The view of an optional owned log level.
pub open spec fn opt_level_view(log_level: Option<String>) -> Option<Seq<char>> {
    match log_level {
        Some(level) => Some(level@),
        None => None,
    }
}

/// Validates a configuration update and lays out the helper invocations it
/// takes.  Checked in order: the memory size must lie within the admissible
/// range, the CPU count within its range, and the log level must be a known
/// name; the first offender is reported and nothing is issued.
pub fn update_config_commands(
    ram_mb: Option<u32>,
    vcpus: Option<u32>,
    log_level: Option<String>,
) -> (r: Result<Vec<Vec<String>>, String>)
    ensures
        r is Ok <==> ram_ok(ram_mb) && vcpus_ok(vcpus) && level_ok(opt_level_view(log_level)),
        r matches Ok(cmds) ==> views_of_commands(cmds@) == config_commands(
            ram_mb,
            vcpus,
            opt_level_view(log_level),
        ),
        !ram_ok(ram_mb) ==> (r matches Err(m) && m@ == ram_error_msg(ram_mb)),
        ram_ok(ram_mb) && !vcpus_ok(vcpus) ==> (r matches Err(m) && m@ == vcpus_error_msg(vcpus)),
        ram_ok(ram_mb) && vcpus_ok(vcpus) && !level_ok(opt_level_view(log_level)) ==> (r matches
            Err(m) && m@ == level_error_msg(opt_level_view(log_level))),
{
    if let Some(ram) = ram_mb {
        if ram < MIN_RAM_MB || ram > MAX_RAM_MB {
            return Err(
                String::from_str("Invalid RAM value: ").concat(u32_to_dec(ram).as_str()).concat(
                    "MB. Must be between 256 and 65536 MB.",
                ),
            );
        }
    }
    if let Some(cpus) = vcpus {
        if cpus < MIN_VCPUS || cpus > MAX_VCPUS {
            return Err(
                String::from_str("Invalid vCPU value: ").concat(u32_to_dec(cpus).as_str()).concat(
                    ". Must be between 1 and 32.",
                ),
            );
        }
    }
    if let Some(ref level) = log_level {
        if !is_valid_log_level(level.as_str()) {
            return Err(
                String::from_str("Invalid log level: '").concat(level.as_str()).concat(
                    "'. Valid options: [\"off\", \"error\", \"warn\", \"info\", \"debug\", \"trace\"]",
                ),
            );
        }
    }
    let mut cmds: Vec<Vec<String>> = Vec::new();
    if let Some(ram) = ram_mb {
        let mut c: Vec<String> = Vec::new();
        c.push(String::from_str("config"));
        c.push(String::from_str("-r"));
        c.push(u32_to_dec(ram));
        proof {
            assert(views_of_strings(c@) =~= seq!["config"@, "-r"@, dec_seq(ram as nat)]);
        }
        cmds.push(c);
    }
    if let Some(cpus) = vcpus {
        let mut c: Vec<String> = Vec::new();
        c.push(String::from_str("config"));
        c.push(String::from_str("-n"));
        c.push(u32_to_dec(cpus));
        proof {
            assert(views_of_strings(c@) =~= seq!["config"@, "-n"@, dec_seq(cpus as nat)]);
        }
        cmds.push(c);
    }
    if let Some(level) = log_level {
        let mut c: Vec<String> = Vec::new();
        c.push(String::from_str("config"));
        c.push(String::from_str("-l"));
        proof {
            reveal_strlit("config");
            reveal_strlit("-l");
        }
        let ghost lv = level@;
        c.push(level);
        proof {
            assert(views_of_strings(c@) =~= seq!["config"@, "-l"@, lv]);
        }
        cmds.push(c);
    }
    proof {
        assert(views_of_commands(cmds@) =~= config_commands(ram_mb, vcpus, opt_level_view(log_level)));
    }
    Ok(cmds)
}

} // verus!
