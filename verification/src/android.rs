//! Reading what Android reports: property values, command output and
//! process information.
use vstd::prelude::*;
use crate::text::{
    chars_of, find_char, index_of, is_digit, lemma_index_of_bounds, parse_unsigned,
    parse_unsigned_range, range_eq, range_starts_with, split_lines, substring, trim, trim_range,
};
use crate::learning::opt_str;
use crate::runtime::DeviceState;

verus! {

/// Whether a screen-state value says that the display is on.
pub open spec fn screen_on_value(value: Seq<char>) -> bool {
    let t = trim(value);
    t == "true"@ || t == "TRUE"@ || t == "on"@ || t == "ON"@ || t == "2"@ || t == "awake"@ || t
        == "Awake"@
}

pub fn screen_value_is_on(value: &str) -> (on: bool)
    ensures
        on == screen_on_value(value@),
{
    let v = chars_of(value);
    let (a, b) = trim_range(&v, 0, v.len());
    assert(v@.subrange(0, v.len() as int) =~= value@);
    range_eq(&v, a, b, "true") || range_eq(&v, a, b, "TRUE") || range_eq(&v, a, b, "on")
        || range_eq(&v, a, b, "ON") || range_eq(&v, a, b, "2") || range_eq(&v, a, b, "awake")
        || range_eq(&v, a, b, "Awake")
}

/// The value of one status line that names the foreground package
/// (`foreground: <package>` or `foreground=<package>`), unless it is empty or
/// `unknown`.
pub open spec fn foreground_of_line(line: Seq<char>) -> Option<Seq<char>> {
    let rest = if line.len() >= 12 && line.subrange(0, 12) == "foreground: "@ {
        Some(line.subrange(12, line.len() as int))
    } else if line.len() >= 11 && line.subrange(0, 11) == "foreground="@ {
        Some(line.subrange(11, line.len() as int))
    } else {
        None
    };
    match rest {
        Some(r) => {
            let value = trim(r);
            if value.len() == 0 || value == "unknown"@ {
                None
            } else {
                Some(value)
            }
        },
        None => None,
    }
}

/// The first foreground package that the lines name.
pub open spec fn foreground_in(lines: Seq<Seq<char>>) -> Option<Seq<char>>
    decreases lines.len(),
{
    if lines.len() == 0 {
        None
    } else {
        match foreground_of_line(lines[0]) {
            Some(v) => Some(v),
            None => foreground_in(lines.subrange(1, lines.len() as int)),
        }
    }
}

fn foreground_of_range(v: &Vec<char>, text: &str, lo: usize, hi: usize) -> (r: Option<String>)
    requires
        v@ == text@,
        lo <= hi <= v.len(),
    ensures
        crate::config::opt_text(r) == foreground_of_line(v@.subrange(lo as int, hi as int)),
{
    let ghost l = v@.subrange(lo as int, hi as int);
    proof {
        reveal_strlit("foreground: ");
        reveal_strlit("foreground=");
    }
    let start = if range_starts_with(v, lo, hi, "foreground: ") {
        assert(v@.subrange(lo as int, lo + 12) =~= l.subrange(0, 12));
        lo + 12
    } else if range_starts_with(v, lo, hi, "foreground=") {
        assert(v@.subrange(lo as int, lo + 11) =~= l.subrange(0, 11));
        assert(!(l.len() >= 12 && l.subrange(0, 12) == "foreground: "@)) by {
            if l.len() >= 12 && l.subrange(0, 12) == "foreground: "@ {
                assert(v@.subrange(lo as int, lo + 12) =~= l.subrange(0, 12));
            }
        }
        lo + 11
    } else {
        assert(!(l.len() >= 12 && l.subrange(0, 12) == "foreground: "@)) by {
            if l.len() >= 12 && l.subrange(0, 12) == "foreground: "@ {
                assert(v@.subrange(lo as int, lo + 12) =~= l.subrange(0, 12));
            }
        }
        assert(!(l.len() >= 11 && l.subrange(0, 11) == "foreground="@)) by {
            if l.len() >= 11 && l.subrange(0, 11) == "foreground="@ {
                assert(v@.subrange(lo as int, lo + 11) =~= l.subrange(0, 11));
            }
        }
        return None;
    };
    assert(l.subrange(start - lo, l.len() as int) =~= v@.subrange(start as int, hi as int));
    let (a, b) = trim_range(v, start, hi);
    if a == b || range_eq(v, a, b, "unknown") {
        return None;
    }
    Some(substring(text, a, b))
}

/// The foreground package that a status reply names, if any.
#[verifier::loop_isolation(false)]
pub fn parse_focusd_status_foreground(status: &str) -> (r: Option<String>)
    ensures
        crate::config::opt_text(r) == foreground_in(split_lines(status@)),
{
    let v = chars_of(status);
    let ranges = crate::text::line_ranges(&v);
    let ghost lines = split_lines(v@);
    let mut i: usize = 0;
    assert(lines.subrange(0, lines.len() as int) =~= lines);
    while i < ranges.len()
        invariant
            0 <= i <= ranges.len(),
            foreground_in(lines) == foreground_in(lines.subrange(i as int, lines.len() as int)),
        decreases ranges.len() - i,
    {
        let (lo, hi) = ranges[i];
        let ghost rest = lines.subrange(i as int, lines.len() as int);
        assert(rest[0] == lines[i as int]);
        assert(rest.subrange(1, rest.len() as int) =~= lines.subrange(i + 1, lines.len() as int));
        match foreground_of_range(&v, status, lo, hi) {
            Some(p) => {
                return Some(p);
            },
            None => {},
        }
        i = i + 1;
    }
    None
}

/// A numeric setting: its trimmed text as a `u64`, unless empty or `null`.
pub open spec fn u64_setting(value: Seq<char>) -> Option<u64> {
    let t = trim(value);
    if t.len() == 0 || t == "null"@ {
        None
    } else {
        match parse_unsigned(t, u64::MAX as nat) {
            Some(n) => Some(n as u64),
            None => None,
        }
    }
}

pub fn parse_u64_setting(value: &str) -> (r: Option<u64>)
    ensures
        r == u64_setting(value@),
{
    let v = chars_of(value);
    let (a, b) = trim_range(&v, 0, v.len());
    assert(v@.subrange(0, v.len() as int) =~= value@);
    if a == b || range_eq(&v, a, b, "null") {
        return None;
    }
    parse_unsigned_range(&v, a, b, u64::MAX)
}

/// The text before the first `.` of `s` (all of it where there is none).
pub open spec fn before_dot(s: Seq<char>) -> Seq<char> {
    s.subrange(0, index_of(s, '.') as int)
}

/// The whole number before the decimal point of a trimmed rate.
pub open spec fn refresh_rate_int(value: Seq<char>) -> Option<u32> {
    match parse_unsigned(before_dot(trim(value)), u32::MAX as nat) {
        Some(n) => Some(n as u32),
        None => None,
    }
}

pub fn parse_refresh_rate_int(value: &str) -> (r: Option<u32>)
    ensures
        r == refresh_rate_int(value@),
{
    let v = chars_of(value);
    let (a, b) = trim_range(&v, 0, v.len());
    assert(v@.subrange(0, v.len() as int) =~= value@);
    let d = find_char(&v, a, b, '.');
    assert(v@.subrange(a as int, b as int).subrange(0, d - a) =~= v@.subrange(a as int, d as int));
    match parse_unsigned_range(&v, a, d, u32::MAX as u64) {
        Some(n) => Some(n as u32),
        None => None,
    }
}

/// The major version of an Android release string (`"14"`, `"12.1"`).
pub open spec fn android_major(release: Seq<char>) -> Option<u32> {
    match parse_unsigned(before_dot(release), u32::MAX as nat) {
        Some(n) => Some(n as u32),
        None => None,
    }
}

pub fn android_major_of(release: &str) -> (r: Option<u32>)
    ensures
        r == android_major(release@),
{
    let v = chars_of(release);
    assert(v@.subrange(0, v.len() as int) =~= release@);
    let d = find_char(&v, 0, v.len(), '.');
    assert(v@.subrange(0, d as int) =~= before_dot(release@));
    match parse_unsigned_range(&v, 0, d, u32::MAX as u64) {
        Some(n) => Some(n as u32),
        None => None,
    }
}

/// The length of the run of digits and dots that starts `s`.
pub open spec fn rate_run(s: Seq<char>) -> nat
    decreases s.len(),
{
    if s.len() > 0 && (is_digit(s[0]) || s[0] == '.') {
        1 + rate_run(s.subrange(1, s.len() as int))
    } else {
        0
    }
}

/// The rate written right after an `fps=`: the leading digits and dots, read
/// as a rate.
pub open spec fn rate_after(s: Seq<char>) -> Option<u32> {
    refresh_rate_int(s.subrange(0, rate_run(s) as int))
}

pub open spec fn max_opt(a: Option<u32>, b: Option<u32>) -> Option<u32> {
    match (a, b) {
        (Some(x), Some(y)) => Some(
            if x >= y {
                x
            } else {
                y
            },
        ),
        (Some(x), None) => Some(x),
        (None, Some(y)) => Some(y),
        (None, None) => None,
    }
}

/// The highest rate given after an `fps=` in display output, if any.
pub open spec fn max_fps(s: Seq<char>) -> Option<u32>
    decreases s.len(),
{
    if s.len() < 4 {
        None
    } else if s.subrange(0, 4) == "fps="@ {
        let t = s.subrange(4, s.len() as int);
        max_opt(rate_after(t), max_fps(t))
    } else {
        max_fps(s.subrange(1, s.len() as int))
    }
}

fn rate_run_end(v: &Vec<char>, lo: usize) -> (e: usize)
    requires
        lo <= v.len(),
    ensures
        lo <= e <= v.len(),
        e == lo + rate_run(v@.subrange(lo as int, v.len() as int)),
    decreases v.len() - lo,
{
    if lo < v.len() && ((48 <= v[lo] as u32 && v[lo] as u32 <= 57) || v[lo] == '.') {
        let ghost s = v@.subrange(lo as int, v.len() as int);
        assert(s.subrange(1, s.len() as int) =~= v@.subrange(lo + 1, v.len() as int));
        rate_run_end(v, lo + 1)
    } else {
        lo
    }
}

/// The highest refresh rate that display output lists, as `max_fps` states.
pub fn parse_max_refresh_rate(output: &str) -> (r: Option<u32>)
    ensures
        r == max_fps(output@),
{
    let v = chars_of(output);
    let mut best: Option<u32> = None;
    let mut i: usize = 0;
    assert(v@.subrange(0, v.len() as int) =~= output@);
    proof {
        reveal_strlit("fps=");
    }
    while i < v.len()
        invariant
            v@ == output@,
            i <= v.len(),
            max_fps(output@) == max_opt(best, max_fps(v@.subrange(i as int, v.len() as int))),
        decreases v.len() - i,
    {
        let ghost s = v@.subrange(i as int, v.len() as int);
        if v.len() - i < 4 {
            assert(max_fps(s) is None);
            i = v.len();
            assert(max_fps(v@.subrange(i as int, v.len() as int)) is None);
        } else if range_eq(&v, i, i + 4, "fps=") {
            assert(s.subrange(0, 4) =~= v@.subrange(i as int, i + 4));
            let t0 = i + 4;
            let ghost t = s.subrange(4, s.len() as int);
            assert(t =~= v@.subrange(t0 as int, v.len() as int));
            let e = rate_run_end(&v, t0);
            let rate = {
                let (a, b) = trim_range(&v, t0, e);
                let d = find_char(&v, a, b, '.');
                assert(v@.subrange(a as int, b as int).subrange(0, d - a) =~= v@.subrange(
                    a as int,
                    d as int,
                ));
                assert(t.subrange(0, rate_run(t) as int) =~= v@.subrange(t0 as int, e as int));
                match parse_unsigned_range(&v, a, d, u32::MAX as u64) {
                    Some(n) => Some(n as u32),
                    None => None,
                }
            };
            best = match (best, rate) {
                (Some(x), Some(y)) => Some(
                    if x >= y {
                        x
                    } else {
                        y
                    },
                ),
                (Some(x), None) => Some(x),
                (None, Some(y)) => Some(y),
                (None, None) => None,
            };
            i = t0;
        } else {
            assert(s.subrange(0, 4) =~= v@.subrange(i as int, i + 4));
            assert(s.subrange(1, s.len() as int) =~= v@.subrange(i + 1, v.len() as int));
            i = i + 1;
        }
    }
    best
}

/// A file's trimmed text, unless it is empty (or there is no file).
pub open spec fn trimmed_nonempty(text: Option<Seq<char>>) -> Option<Seq<char>> {
    match text {
        Some(t) => if trim(t).len() > 0 {
            Some(trim(t))
        } else {
            None
        },
        None => None,
    }
}

pub fn trimmed_text(text: Option<&str>) -> (r: Option<String>)
    ensures
        crate::config::opt_text(r) == trimmed_nonempty(crate::learning::opt_str(text)),
{
    match text {
        Some(t) => {
            let v = chars_of(t);
            let (a, b) = trim_range(&v, 0, v.len());
            assert(v@.subrange(0, v.len() as int) =~= t@);
            if a == b {
                None
            } else {
                Some(substring(t, a, b))
            }
        },
        None => None,
    }
}

/// A file's trimmed text read as a number of milliseconds.
pub open spec fn stored_millis(text: Option<Seq<char>>) -> Option<u64> {
    match trimmed_nonempty(text) {
        Some(t) => match parse_unsigned(t, u64::MAX as nat) {
            Some(n) => Some(n as u64),
            None => None,
        },
        None => None,
    }
}

pub fn millis_from_text(text: Option<&str>) -> (r: Option<u64>)
    ensures
        r == stored_millis(crate::learning::opt_str(text)),
{
    match text {
        Some(t) => {
            let v = chars_of(t);
            let (a, b) = trim_range(&v, 0, v.len());
            assert(v@.subrange(0, v.len() as int) =~= t@);
            if a == b {
                None
            } else {
                parse_unsigned_range(&v, a, b, u64::MAX)
            }
        },
        None => None,
    }
}

/// The position just after the last `c` in `s`, or 0 where there is none.
pub open spec fn after_last(s: Seq<char>, c: char) -> nat
    decreases s.len(),
{
    if s.len() == 0 {
        0
    } else if s[s.len() - 1] == c {
        s.len()
    } else {
        after_last(s.subrange(0, s.len() - 1), c)
    }
}

pub proof fn lemma_after_last(s: Seq<char>, c: char)
    ensures
        after_last(s, c) <= s.len(),
        after_last(s, c) > 0 ==> s[after_last(s, c) - 1] == c,
    decreases s.len(),
{
    if s.len() > 0 && s[s.len() - 1] != c {
        let t = s.subrange(0, s.len() - 1);
        lemma_after_last(t, c);
        if after_last(t, c) > 0 {
            assert(s[after_last(t, c) - 1] == t[after_last(t, c) - 1]);
        }
    }
}

/// The last line of `s` as `str::lines` gives it (without its line ending),
/// or the empty text where there is none.
pub open spec fn last_line(s: Seq<char>) -> Seq<char> {
    if s.len() == 0 {
        Seq::empty()
    } else {
        let t = if s[s.len() - 1] == '\n' {
            let u = s.subrange(0, s.len() - 1);
            if u.len() > 0 && u[u.len() - 1] == '\r' {
                u.subrange(0, u.len() - 1)
            } else {
                u
            }
        } else {
            s
        };
        t.subrange(after_last(t, '\n') as int, t.len() as int)
    }
}

/// The text of `s` before the first `c`.
pub open spec fn before_char(s: Seq<char>, c: char) -> Seq<char> {
    s.subrange(0, index_of(s, c) as int)
}

fn after_last_in(v: &Vec<char>, hi: usize, c: char) -> (r: usize)
    requires
        hi <= v.len(),
    ensures
        r == after_last(v@.subrange(0, hi as int), c),
        r <= hi,
    decreases hi,
{
    if hi == 0 {
        0
    } else if v[hi - 1] == c {
        hi
    } else {
        assert(v@.subrange(0, hi as int).subrange(0, hi - 1) =~= v@.subrange(0, hi - 1));
        after_last_in(v, hi - 1, c)
    }
}

/// The package of the default home activity: the last line of the resolver
/// output, up to its first `/`.
pub open spec fn launcher_of(output: Seq<char>) -> Seq<char> {
    before_char(last_line(output), '/')
}

pub fn default_launcher_of(output: &str) -> (r: String)
    ensures
        r@ == launcher_of(output@),
{
    let v = chars_of(output);
    assert(v@.subrange(0, v.len() as int) =~= output@);
    if v.len() == 0 {
        return String::new();
    }
    let mut end = v.len();
    if v[end - 1] == '\n' {
        end = end - 1;
        if end > 0 && v[end - 1] == '\r' {
            end = end - 1;
        }
    }
    let ghost t = v@.subrange(0, end as int);
    proof {
        let s = output@;
        if s[s.len() - 1] == '\n' {
            let u = s.subrange(0, s.len() - 1);
            if u.len() > 0 && u[u.len() - 1] == '\r' {
                assert(u.subrange(0, u.len() - 1) =~= t);
            } else {
                assert(u =~= t);
            }
        } else {
            assert(s =~= t);
        }
    }
    let start = after_last_in(&v, end, '\n');
    let slash = find_char(&v, start, end, '/');
    assert(t.subrange(start as int, end as int) =~= v@.subrange(start as int, end as int));
    assert(v@.subrange(start as int, end as int).subrange(0, slash - start) =~= v@.subrange(
        start as int,
        slash as int,
    ));
    substring(output, start, slash)
}

/// The package of the default input method: the setting up to its first `/`.
pub open spec fn keyboard_of(output: Seq<char>) -> Seq<char> {
    before_char(output, '/')
}

pub fn default_keyboard_of(output: &str) -> (r: String)
    ensures
        r@ == keyboard_of(output@),
{
    let v = chars_of(output);
    assert(v@.subrange(0, v.len() as int) =~= output@);
    let slash = find_char(&v, 0, v.len(), '/');
    assert(v@.subrange(0, slash as int) =~= keyboard_of(output@));
    substring(output, 0, slash)
}

pub open spec fn line_if_named(p: Seq<char>) -> Seq<char> {
    if p.len() > 0 {
        p + seq!['\n']
    } else {
        Seq::empty()
    }
}

/// The first whitelist: a comment, then the launcher and the keyboard where
/// known, then one more messaging app.
pub open spec fn whitelist_seed(launcher: Seq<char>, keyboard: Seq<char>) -> Seq<char> {
    "# Protected apps\n"@ + line_if_named(launcher) + line_if_named(keyboard) + "com.zing.zalo\n"@
}

pub fn whitelist_text(launcher: &str, keyboard: &str) -> (r: String)
    ensures
        r@ == whitelist_seed(launcher@, keyboard@),
{
    proof {
        reveal_strlit("\n");
    }
    let mut r = String::from_str("# Protected apps\n");
    if launcher.unicode_len() > 0 {
        r.append(launcher);
        r.append("\n");
    }
    if keyboard.unicode_len() > 0 {
        r.append(keyboard);
        r.append("\n");
    }
    r.append("com.zing.zalo\n");
    assert(r@ =~= whitelist_seed(launcher@, keyboard@));
    r
}

/// The backup of the forced-app-standby setting: its value and a line break,
/// unless the setting is empty or `null` (then there is nothing to back up).
pub open spec fn standby_backup(value: Seq<char>) -> Option<Seq<char>> {
    if value.len() == 0 || value == "null"@ {
        None
    } else {
        Some(value + seq!['\n'])
    }
}

pub fn forced_standby_backup(value: &str) -> (r: Option<String>)
    ensures
        crate::config::opt_text(r) == standby_backup(value@),
{
    let v = chars_of(value);
    assert(v@.subrange(0, v.len() as int) =~= value@);
    if v.len() == 0 || range_eq(&v, 0, v.len(), "null") {
        return None;
    }
    let mut r = String::from_str(value);
    r.append("\n");
    proof {
        reveal_strlit("\n");
    }
    assert(r@ =~= value@ + seq!['\n']);
    Some(r)
}

/// The packages that a whitelist protects: its trimmed lines, without blank
/// lines and `#` comments.
pub open spec fn protected_list(lines: Seq<Seq<char>>) -> Seq<Seq<char>>
    decreases lines.len(),
{
    if lines.len() == 0 {
        Seq::empty()
    } else {
        let t = trim(lines[lines.len() - 1]);
        protected_list(lines.subrange(0, lines.len() - 1)) + if t.len() > 0 && t[0] != '#' {
            seq![t]
        } else {
            Seq::empty()
        }
    }
}

pub open spec fn protected_from(text: Option<Seq<char>>) -> Seq<Seq<char>> {
    match text {
        Some(t) => protected_list(split_lines(t)),
        None => Seq::empty(),
    }
}

/// The packages that the whitelist file `text` protects (none where there is
/// no file).
#[verifier::loop_isolation(false)]
pub fn protected_packages(text: Option<&str>) -> (r: Vec<String>)
    ensures
        crate::runtime::texts(r@) == protected_from(crate::learning::opt_str(text)),
{
    let mut r: Vec<String> = Vec::new();
    let t = match text {
        Some(t) => t,
        None => {
            assert(crate::runtime::texts(r@) =~= Seq::<Seq<char>>::empty());
            return r;
        },
    };
    let v = chars_of(t);
    let ranges = crate::text::line_ranges(&v);
    let ghost lines = split_lines(v@);
    let mut i: usize = 0;
    assert(crate::runtime::texts(r@) =~= protected_list(lines.subrange(0, 0)));
    while i < ranges.len()
        invariant
            0 <= i <= ranges.len(),
            crate::runtime::texts(r@) == protected_list(lines.subrange(0, i as int)),
        decreases ranges.len() - i,
    {
        let (lo, hi) = ranges[i];
        let (a, b) = trim_range(&v, lo, hi);
        if a < b && v[a] != '#' {
            r.push(substring(t, a, b));
        }
        proof {
            let u = lines.subrange(0, i + 1);
            assert(u.subrange(0, i as int) =~= lines.subrange(0, i as int));
            assert(u[i as int] == lines[i as int]);
            assert(crate::runtime::texts(r@) =~= protected_list(u));
        }
        i = i + 1;
    }
    assert(lines.subrange(0, ranges.len() as int) =~= lines);
    r
}

/// `list` with `name` appended where it is not in it already.
pub open spec fn push_unique(list: Seq<Seq<char>>, name: Seq<char>) -> Seq<Seq<char>> {
    if list.contains(name) {
        list
    } else {
        list.push(name)
    }
}

pub fn add_unique(list: &mut Vec<String>, name: String)
    ensures
        crate::runtime::texts(final(list)@) == push_unique(crate::runtime::texts(old(list)@), name@),
{
    if !crate::runtime::contains_text(list, &name) {
        list.push(name);
        assert(crate::runtime::texts(list@) =~= crate::runtime::texts(old(list)@).push(name@));
    }
}

/// The protected packages and the foreground package, where known.
pub fn with_foreground(protected: Vec<String>, foreground: Option<String>) -> (r: Vec<String>)
    ensures
        crate::runtime::texts(r@) == match foreground {
            Some(p) => push_unique(crate::runtime::texts(protected@), p@),
            None => crate::runtime::texts(protected@),
        },
{
    let mut r = protected;
    match foreground {
        Some(p) => {
            add_unique(&mut r, p);
        },
        None => {},
    }
    r
}

/// The process ids listed in `lines` (one per line, trimmed) added to `acc`
/// in order, each once.
pub open spec fn add_pids(acc: Seq<i32>, lines: Seq<Seq<char>>) -> Seq<i32>
    decreases lines.len(),
{
    if lines.len() == 0 {
        acc
    } else {
        let before = add_pids(acc, lines.subrange(0, lines.len() - 1));
        match crate::text::parse_i32(trim(lines[lines.len() - 1])) {
            Some(p) => if before.contains(p as i32) {
                before
            } else {
                before.push(p as i32)
            },
            None => before,
        }
    }
}

/// Adds the process ids of a cgroup process list to `pids`.
#[verifier::loop_isolation(false)]
pub fn collect_pids(pids: &mut Vec<i32>, text: &str)
    ensures
        final(pids)@ == add_pids(old(pids)@, split_lines(text@)),
{
    let v = chars_of(text);
    let ranges = crate::text::line_ranges(&v);
    let ghost lines = split_lines(v@);
    let ghost start = pids@;
    let mut i: usize = 0;
    assert(lines.subrange(0, 0).len() == 0);
    while i < ranges.len()
        invariant
            0 <= i <= ranges.len(),
            pids@ == add_pids(start, lines.subrange(0, i as int)),
        decreases ranges.len() - i,
    {
        let (lo, hi) = ranges[i];
        let (a, b) = trim_range(&v, lo, hi);
        match crate::text::parse_i32_range(&v, a, b) {
            Some(p) => {
                let mut found = false;
                let mut j: usize = 0;
                while j < pids.len()
                    invariant
                        0 <= j <= pids.len(),
                        found == exists|k: int| 0 <= k < j && pids@[k] == p,
                    decreases pids.len() - j,
                {
                    if pids[j] == p {
                        found = true;
                    }
                    j = j + 1;
                }
                if !found {
                    pids.push(p);
                }
            },
            None => {},
        }
        proof {
            let u = lines.subrange(0, i + 1);
            assert(u.subrange(0, i as int) =~= lines.subrange(0, i as int));
            assert(u[i as int] == lines[i as int]);
        }
        i = i + 1;
    }
    assert(lines.subrange(0, ranges.len() as int) =~= lines);
}

/// Whether `uid` belongs to an app of the primary user.
pub open spec fn app_uid(uid: u32) -> bool {
    10000 <= uid && uid < 20000
}

pub fn is_app_uid(uid: u32) -> (b: bool)
    ensures
        b == app_uid(uid),
{
    10000 <= uid && uid < 20000
}

pub open spec fn trim_nul_start(s: Seq<char>) -> Seq<char>
    decreases s.len(),
{
    if s.len() > 0 && s[0] == '\0' {
        trim_nul_start(s.subrange(1, s.len() as int))
    } else {
        s
    }
}

pub open spec fn trim_nul_end(s: Seq<char>) -> Seq<char>
    decreases s.len(),
{
    if s.len() > 0 && s[s.len() - 1] == '\0' {
        trim_nul_end(s.subrange(0, s.len() - 1))
    } else {
        s
    }
}

/// The package that a process command line names: the text before the first
/// `:`, without surrounding NUL characters; nothing where that is empty.
pub open spec fn cmdline_package(cmdline: Seq<char>) -> Option<Seq<char>> {
    let p = trim_nul_end(trim_nul_start(before_char(cmdline, ':')));
    if cmdline.len() == 0 || p.len() == 0 {
        None
    } else {
        Some(p)
    }
}

pub fn package_from_cmdline(cmdline: &str) -> (r: Option<String>)
    ensures
        crate::config::opt_text(r) == cmdline_package(cmdline@),
{
    let v = chars_of(cmdline);
    assert(v@.subrange(0, v.len() as int) =~= cmdline@);
    if v.len() == 0 {
        return None;
    }
    let colon = find_char(&v, 0, v.len(), ':');
    let mut a: usize = 0;
    while a < colon && v[a] == '\0'
        invariant
            a <= colon <= v.len(),
            trim_nul_start(v@.subrange(0, colon as int)) == trim_nul_start(v@.subrange(a as int, colon as int)),
        decreases colon - a,
    {
        assert(v@.subrange(a as int, colon as int).subrange(1, colon - a) =~= v@.subrange(a + 1, colon as int));
        a = a + 1;
    }
    let mut b = colon;
    while b > a && v[b - 1] == '\0'
        invariant
            a <= b <= colon <= v.len(),
            trim_nul_end(v@.subrange(a as int, colon as int)) == trim_nul_end(v@.subrange(a as int, b as int)),
        decreases b - a,
    {
        assert(v@.subrange(a as int, b as int).subrange(0, b - a - 1) =~= v@.subrange(a as int, b - 1));
        b = b - 1;
    }
    assert(v@.subrange(0, colon as int) =~= before_char(cmdline@, ':'));
    if a == b {
        return None;
    }
    Some(substring(cmdline, a, b))
}

/// The screen timeout as set before setup, and the shorter one used at low battery
/// (nine fifteenths of it), where the setting holds a number.
pub open spec fn timeout_backup(setting: Seq<char>) -> Option<(u64, u64)> {
    match u64_setting(setting) {
        Some(t) => Some(
            (
                t,
                ((if t * 9 > u64::MAX {
                    u64::MAX as int
                } else {
                    t * 9
                }) / 15) as u64,
            ),
        ),
        None => None,
    }
}

/// How a backed-up screen timeout is written to its file: its digits and a
/// line break.
pub open spec fn timeout_file(ms: u64) -> Seq<char> {
    crate::text::decimal(ms as nat) + seq!['\n']
}

pub fn timeout_file_text(ms: u64) -> (s: String)
    ensures
        s@ == timeout_file(ms),
{
    let mut s = crate::text::decimal_string(ms);
    s.push('\n');
    s
}

pub fn screen_timeout_backup(setting: &str) -> (r: Option<(u64, u64)>)
    ensures
        r == timeout_backup(setting@),
{
    match parse_u64_setting(setting) {
        Some(t) => {
            let m = if t <= u64::MAX / 9 {
                t * 9
            } else {
                u64::MAX
            };
            Some((t, m / 15))
        },
        None => None,
    }
}

/// Whether the display is a high-refresh one running at a high rate: both
/// the highest mode and the current peak rate (60 where unknown) are at least
/// 90.
pub open spec fn high_refresh(max_rate: Option<u32>, current: Seq<char>) -> bool {
    let m = match max_rate {
        Some(r) => r,
        None => 60,
    };
    let c = match refresh_rate_int(current) {
        Some(r) => r,
        None => 60,
    };
    m >= 90 && c >= 90
}

pub fn keeps_high_refresh_rate(max_rate: Option<u32>, current: &str) -> (b: bool)
    ensures
        b == high_refresh(max_rate, current@),
{
    let m = match max_rate {
        Some(r) => r,
        None => 60,
    };
    let c = match parse_refresh_rate_int(current) {
        Some(r) => r,
        None => 60,
    };
    m >= 90 && c >= 90
}

/// Whether the screen is on: the screen property where it is set and not
/// empty, else the idle controller's answer, else on.
pub open spec fn display_on_from(prop: Option<Seq<char>>, fallback: Option<Seq<char>>) -> bool {
    let v = match prop {
        Some(p) => if p.len() > 0 {
            Some(p)
        } else {
            fallback
        },
        None => fallback,
    };
    match v {
        Some(x) => screen_on_value(x),
        None => true,
    }
}

/// Whether the screen property leaves the answer to the idle controller.
pub fn screen_needs_fallback(prop: Option<&str>) -> (b: bool)
    ensures
        b == (prop is None || prop->0@.len() == 0),
{
    match prop {
        Some(p) => p.unicode_len() == 0,
        None => true,
    }
}

pub fn display_on(prop: Option<&str>, fallback: Option<&str>) -> (b: bool)
    ensures
        b == display_on_from(opt_str(prop), opt_str(fallback)),
{
    let v = match prop {
        Some(p) => if p.unicode_len() > 0 {
            Some(p)
        } else {
            fallback
        },
        None => fallback,
    };
    match v {
        Some(x) => screen_value_is_on(x),
        None => true,
    }
}

/// The battery level: the capacity file's number where it holds one
/// (trimmed), else the battery service's answer, else 0.
pub open spec fn level_from(capacity: Option<Seq<char>>, fallback: Option<Seq<char>>) -> u8 {
    match capacity_level(capacity) {
        Some(n) => n,
        None => match fallback {
            Some(f) => match parse_unsigned(f, 255) {
                Some(n) => n as u8,
                None => 0,
            },
            None => 0,
        },
    }
}

/// The number in the capacity file, if it holds one.
pub open spec fn capacity_level(capacity: Option<Seq<char>>) -> Option<u8> {
    match trimmed_nonempty(capacity) {
        Some(t) => match parse_unsigned(t, 255) {
            Some(n) => Some(n as u8),
            None => None,
        },
        None => None,
    }
}

fn parse_u8(text: &str) -> (r: Option<u8>)
    ensures
        match r {
            Some(n) => parse_unsigned(text@, 255) == Some(n as nat),
            None => parse_unsigned(text@, 255) is None,
        },
{
    let v = chars_of(text);
    assert(v@.subrange(0, v.len() as int) =~= text@);
    match parse_unsigned_range(&v, 0, v.len(), 255) {
        Some(n) => Some(n as u8),
        None => None,
    }
}

/// The number in the capacity file, as `capacity_level` states it; where
/// it is `None` the battery service is asked.
pub fn capacity_level_of(capacity: Option<&str>) -> (r: Option<u8>)
    ensures
        r == capacity_level(opt_str(capacity)),
{
    match trimmed_text(capacity) {
        Some(t) => parse_u8(t.as_str()),
        None => None,
    }
}

pub fn battery_level(capacity: Option<&str>, fallback: Option<&str>) -> (n: u8)
    ensures
        n == level_from(opt_str(capacity), opt_str(fallback)),
{
    match capacity_level_of(capacity) {
        Some(n) => n,
        None => match fallback {
            Some(f) => match parse_u8(f) {
                Some(n) => n,
                None => 0,
            },
            None => 0,
        },
    }
}

/// Whether the device charges: the status file (trimmed) reads `Charging`
/// or `Full` where it holds text, else the plug type is set and not `0`.
pub open spec fn charging_from(status: Option<Seq<char>>, plug_type: Option<Seq<char>>) -> bool {
    match trimmed_nonempty(status) {
        Some(s) => s == "Charging"@ || s == "Full"@,
        None => match plug_type {
            Some(p) => p != "0"@ && p.len() > 0,
            None => false,
        },
    }
}

/// Whether the status file leaves the answer to the plug type.
pub fn status_needs_fallback(status: Option<&str>) -> (b: bool)
    ensures
        b == trimmed_nonempty(opt_str(status)) is None,
{
    trimmed_text(status).is_none()
}

pub fn charging_state(status: Option<&str>, plug_type: Option<&str>) -> (b: bool)
    ensures
        b == charging_from(opt_str(status), opt_str(plug_type)),
{
    match trimmed_text(status) {
        Some(s) => {
            let v = chars_of(s.as_str());
            assert(v@.subrange(0, v.len() as int) =~= v@);
            range_eq(&v, 0, v.len(), "Charging") || range_eq(&v, 0, v.len(), "Full")
        },
        None => match plug_type {
            Some(p) => {
                let v = chars_of(p);
                assert(v@.subrange(0, v.len() as int) =~= p@);
                !range_eq(&v, 0, v.len(), "0") && v.len() > 0
            },
            None => false,
        },
    }
}

/// Whether boot has completed: `sys.boot_completed` reads `1`, or cannot
/// be read at all.
pub fn boot_completed(value: Option<&str>) -> (b: bool)
    ensures
        b == match opt_str(value) {
            Some(v) => v == "1"@,
            None => true,
        },
{
    match value {
        Some(v) => {
            let c = chars_of(v);
            assert(c@.subrange(0, c.len() as int) =~= v@);
            range_eq(&c, 0, c.len(), "1")
        },
        None => true,
    }
}

/// The Android major version from the release property, 0 where it cannot
/// be read.
pub fn android_major_from(release: Option<&str>) -> (n: u32)
    ensures
        n == match opt_str(release) {
            Some(r) => match android_major(r) {
                Some(m) => m,
                None => 0,
            },
            None => 0,
        },
{
    match release {
        Some(r) => match android_major_of(r) {
            Some(m) => m,
            None => 0,
        },
        None => 0,
    }
}

/// What a cycle observed of the device, from what the properties, files
/// and services answered (`None` where nothing answered).
pub fn device_state(
    release: Option<&str>,
    screen_prop: Option<&str>,
    screen_answer: Option<&str>,
    capacity: Option<&str>,
    level_answer: Option<&str>,
    status: Option<&str>,
    plug_type: Option<&str>,
) -> (s: DeviceState)
    ensures
        s.display_on == display_on_from(opt_str(screen_prop), opt_str(screen_answer)),
        s.charging == charging_from(opt_str(status), opt_str(plug_type)),
        s.level == level_from(opt_str(capacity), opt_str(level_answer)),
        s.android_major == match opt_str(release) {
            Some(r) => match android_major(r) {
                Some(m) => m,
                None => 0,
            },
            None => 0,
        },
{
    DeviceState {
        display_on: display_on(screen_prop, screen_answer),
        charging: charging_state(status, plug_type),
        level: battery_level(capacity, level_answer),
        android_major: android_major_from(release),
    }
}

} // verus!
