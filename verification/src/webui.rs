//! The web UI bridge: how it patches the page and which shell commands it
//! answers from the configuration file itself.
use vstd::prelude::*;
use crate::text::{
    chars_of, find_char, index_of, lemma_index_of_bounds, range_eq, range_ends_with,
    range_starts_with, replace, replace_all, split_lines, substring, trim, trim_range,
};
use crate::runtime::texts;
use crate::text::{clean_key, clean_value, is_ws, lines_of, no_newline, text_lines};

verus! {

pub open spec fn kernelsu_import() -> Seq<char> {
    "import { exec, fullScreen } from \"ax://kernelsu.js\";"@
}

pub open spec fn fetch_bridge() -> Seq<char> {
    "const exec = async (command) => {\n  const response = await fetch('/api/exec', { method: 'POST', body: command });\n  if (!response.ok) throw new Error(await response.text());\n  return await response.json();\n};\nconst fullScreen = () => {};\n"@
}

pub open spec fn patched_index(raw: Seq<char>) -> Seq<char> {
    replace_all(
        replace_all(raw, kernelsu_import(), fetch_bridge()),
        "exec(`utensil ${command}`)"@,
        "exec(`utensil-poker ${command}`)"@,
    )
}

/// The page with the KernelSU bridge import replaced by a `fetch` bridge to
/// this server, and `utensil` commands renamed `utensil-poker`.
pub fn patch_index(raw: &str) -> (r: String)
    ensures
        r@ == patched_index(raw@),
{
    proof {
        reveal_strlit("import { exec, fullScreen } from \"ax://kernelsu.js\";");
        reveal_strlit("exec(`utensil ${command}`)");
    }
    let first = replace(
        raw,
        "import { exec, fullScreen } from \"ax://kernelsu.js\";",
        "const exec = async (command) => {\n  const response = await fetch('/api/exec', { method: 'POST', body: command });\n  if (!response.ok) throw new Error(await response.text());\n  return await response.json();\n};\nconst fullScreen = () => {};\n",
    );
    replace(first.as_str(), "exec(`utensil ${command}`)", "exec(`utensil-poker ${command}`)")
}

/// ASCII letters and digits, `_` and `-`.
pub open spec fn marker_char(c: char) -> bool {
    let u = c as u32;
    (48 <= u && u <= 57) || (65 <= u && u <= 90) || (97 <= u && u <= 122) || c == '_' || c == '-'
}

pub fn is_marker_char(c: char) -> (b: bool)
    ensures
        b == marker_char(c),
{
    let u = c as u32;
    (48 <= u && u <= 57) || (65 <= u && u <= 90) || (97 <= u && u <= 122) || c == '_' || c == '-'
}

/// The marker name between `prefix` and `suffix` of `command`, if the
/// command has that shape and the name is made of marker characters.
pub open spec fn marker_between(command: Seq<char>, prefix: Seq<char>, suffix: Seq<char>) -> Option<
    Seq<char>,
> {
    if command.len() >= prefix.len() && command.subrange(0, prefix.len() as int) == prefix {
        let rest = command.subrange(prefix.len() as int, command.len() as int);
        if rest.len() >= suffix.len() && rest.subrange(rest.len() - suffix.len(), rest.len() as int)
            == suffix {
            let m = rest.subrange(0, rest.len() - suffix.len());
            if forall|i: int| 0 <= i < m.len() ==> marker_char(#[trigger] m[i]) {
                Some(m)
            } else {
                None
            }
        } else {
            None
        }
    } else {
        None
    }
}

#[verifier::loop_isolation(false)]
fn marker_after(command: &str, prefix: &str, suffix: &str) -> (r: Option<String>)
    ensures
        crate::config::opt_text(r) == marker_between(command@, prefix@, suffix@),
{
    let v = chars_of(command);
    let np = prefix.unicode_len();
    let ns = suffix.unicode_len();
    assert(v@.subrange(0, v.len() as int) =~= command@);
    if !range_starts_with(&v, 0, v.len(), prefix) {
        assert(!(command@.len() >= prefix@.len() && command@.subrange(0, prefix@.len() as int) == prefix@)) by {
            if command@.len() >= prefix@.len() && command@.subrange(0, prefix@.len() as int) == prefix@ {
                assert(v@.subrange(0, 0int + prefix@.len()) =~= command@.subrange(0, prefix@.len() as int));
            }
        }
        return None;
    }
    assert(v@.subrange(0, 0int + prefix@.len()) =~= command@.subrange(0, prefix@.len() as int));
    let ghost rest = command@.subrange(np as int, command@.len() as int);
    if !range_ends_with(&v, np, v.len(), suffix) {
        assert(v@.subrange(np as int, v.len() as int) =~= rest);
        assert(!(rest.len() >= suffix@.len() && rest.subrange(rest.len() - suffix@.len(), rest.len() as int) == suffix@)) by {
            if rest.len() >= suffix@.len() && rest.subrange(rest.len() - suffix@.len(), rest.len() as int) == suffix@ {
                assert(rest.subrange(rest.len() - suffix@.len(), rest.len() as int) =~= v@.subrange(v.len() - suffix@.len(), v.len() as int));
            }
        }
        return None;
    }
    let end = v.len() - ns;
    assert(rest.subrange(rest.len() - ns, rest.len() as int) =~= v@.subrange(end as int, v.len() as int));
    assert(rest.subrange(0, rest.len() - ns) =~= v@.subrange(np as int, end as int));
    let mut i = np;
    while i < end
        invariant
            np <= i <= end <= v.len(),
            forall|j: int| np <= j < i ==> marker_char(#[trigger] v@[j]),
        decreases end - i,
    {
        if !is_marker_char(v[i]) {
            assert(v@.subrange(np as int, end as int)[i - np] == v@[i as int]);
            return None;
        }
        i = i + 1;
    }
    assert forall|j: int| 0 <= j < end - np implies marker_char(#[trigger] v@.subrange(np as int, end as int)[j]) by {
        assert(v@.subrange(np as int, end as int)[j] == v@[np + j]);
    }
    Some(substring(command, np, end))
}

/// The marker that a `[ -f ... ] && echo 1 || echo 0` test asks about.
pub fn parse_marker_exists(command: &str) -> (r: Option<String>)
    ensures
        crate::config::opt_text(r) == marker_between(
            command@,
            "[ -f \"/data/local/tmp/utensil/"@,
            "\" ] && echo 1 || echo 0"@,
        ),
{
    marker_after(command, "[ -f \"/data/local/tmp/utensil/", "\" ] && echo 1 || echo 0")
}

/// The marker that a `touch` command creates.
pub fn parse_touch_marker(command: &str) -> (r: Option<String>)
    ensures
        crate::config::opt_text(r) == marker_between(command@, "touch /data/local/tmp/utensil/"@, ""@),
{
    marker_after(command, "touch /data/local/tmp/utensil/", "")
}

/// The marker that an `rm -f` command removes.
pub fn parse_rm_marker(command: &str) -> (r: Option<String>)
    ensures
        crate::config::opt_text(r) == marker_between(command@, "rm -f /data/local/tmp/utensil/"@, ""@),
{
    marker_after(command, "rm -f /data/local/tmp/utensil/", "")
}

/// The configuration setting that a web UI marker file stands for, and the
/// value that turns it on.
pub open spec fn marker_key(marker: Seq<char>) -> Option<(Seq<char>, Seq<char>)> {
    if marker == "draincheck"@ {
        Some(("drain.enabled"@, "true"@))
    } else if marker == "sensorconfiguration"@ {
        Some(("sensors.enabled"@, "true"@))
    } else if marker == "airplaneconfiguration"@ {
        Some(("airplane.enabled"@, "true"@))
    } else if marker == "charglogconfiguration"@ {
        Some(("logging.enabled"@, "true"@))
    } else if marker == "compactionconfiguration"@ {
        Some(("compaction.enabled"@, "true"@))
    } else if marker == "timeoutflag"@ {
        Some(("battery.screen_timeout_low_ms"@, "72000"@))
    } else if marker == "notificationconfiguration"@ {
        Some(("notification.enabled"@, "true"@))
    } else if marker == "dndconfiguration"@ {
        Some(("battery.dnd_while_charging"@, "true"@))
    } else if marker == "watchdogconfiguration"@ {
        Some(("watchdog.enabled"@, "true"@))
    } else if marker == "jobschedulerconfiguration"@ {
        Some(("watchdog.jobscheduler"@, "true"@))
    } else if marker == "cmdthermal"@ {
        Some(("thermal.enabled"@, "true"@))
    } else if marker == "bgapplimits"@ {
        Some(("battery.background_process_limit_low"@, "3"@))
    } else if marker == "refreshrateconfig"@ {
        Some(("battery.refresh_rate_low"@, "60.0"@))
    } else if marker == "restricteddeviceperformance"@ {
        Some(("battery.samsung_restricted_performance"@, "true"@))
    } else {
        None
    }
}

pub fn marker_config_key(marker: &str) -> (r: Option<(&'static str, &'static str)>)
    ensures
        match r {
            Some((k, v)) => marker_key(marker@) == Some((k@, v@)),
            None => marker_key(marker@) is None,
        },
{
    let m = chars_of(marker);
    assert(m@.subrange(0, m.len() as int) =~= marker@);
    if range_eq(&m, 0, m.len(), "draincheck") {
        Some(("drain.enabled", "true"))
    } else if range_eq(&m, 0, m.len(), "sensorconfiguration") {
        Some(("sensors.enabled", "true"))
    } else if range_eq(&m, 0, m.len(), "airplaneconfiguration") {
        Some(("airplane.enabled", "true"))
    } else if range_eq(&m, 0, m.len(), "charglogconfiguration") {
        Some(("logging.enabled", "true"))
    } else if range_eq(&m, 0, m.len(), "compactionconfiguration") {
        Some(("compaction.enabled", "true"))
    } else if range_eq(&m, 0, m.len(), "timeoutflag") {
        Some(("battery.screen_timeout_low_ms", "72000"))
    } else if range_eq(&m, 0, m.len(), "notificationconfiguration") {
        Some(("notification.enabled", "true"))
    } else if range_eq(&m, 0, m.len(), "dndconfiguration") {
        Some(("battery.dnd_while_charging", "true"))
    } else if range_eq(&m, 0, m.len(), "watchdogconfiguration") {
        Some(("watchdog.enabled", "true"))
    } else if range_eq(&m, 0, m.len(), "jobschedulerconfiguration") {
        Some(("watchdog.jobscheduler", "true"))
    } else if range_eq(&m, 0, m.len(), "cmdthermal") {
        Some(("thermal.enabled", "true"))
    } else if range_eq(&m, 0, m.len(), "bgapplimits") {
        Some(("battery.background_process_limit_low", "3"))
    } else if range_eq(&m, 0, m.len(), "refreshrateconfig") {
        Some(("battery.refresh_rate_low", "60.0"))
    } else if range_eq(&m, 0, m.len(), "restricteddeviceperformance") {
        Some(("battery.samsung_restricted_performance", "true"))
    } else {
        None
    }
}

/// The value that turns a marker's setting off.
pub open spec fn marker_off(marker: Seq<char>) -> Seq<char> {
    if marker == "timeoutflag"@ || marker == "bgapplimits"@ || marker == "refreshrateconfig"@ {
        ""@
    } else {
        "false"@
    }
}

pub fn marker_disabled_value(marker: &str) -> (r: &'static str)
    ensures
        r@ == marker_off(marker@),
{
    let m = chars_of(marker);
    assert(m@.subrange(0, m.len() as int) =~= marker@);
    if range_eq(&m, 0, m.len(), "timeoutflag") || range_eq(&m, 0, m.len(), "bgapplimits") || range_eq(
        &m,
        0,
        m.len(),
        "refreshrateconfig",
    ) {
        ""
    } else {
        "false"
    }
}

pub open spec fn pairs(u: Seq<(String, String)>) -> Seq<(Seq<char>, Seq<char>)> {
    u.map_values(|e: (String, String)| (e.0@, e.1@))
}

/// The setting that one configuration line holds: none for a blank line, a
/// `#` comment or a line without `=`; else the trimmed text before the first
/// `=` and the trimmed text after it.
pub open spec fn line_pairs(line: Seq<char>) -> Seq<(Seq<char>, Seq<char>)> {
    let t = trim(line);
    let eq = index_of(t, '=');
    if t.len() == 0 || t[0] == '#' || eq >= t.len() {
        Seq::empty()
    } else {
        seq![(trim(t.subrange(0, eq as int)), trim(t.subrange(eq as int + 1, t.len() as int)))]
    }
}

/// The `key=value` settings of a configuration text, in order, as
/// `line_pairs` reads each line.
pub open spec fn config_pairs(lines: Seq<Seq<char>>) -> Seq<(Seq<char>, Seq<char>)>
    decreases lines.len(),
{
    if lines.len() == 0 {
        Seq::empty()
    } else {
        config_pairs(lines.subrange(0, lines.len() - 1)) + line_pairs(lines[lines.len() - 1])
    }
}

/// The settings of a configuration text, as `config_pairs` states them: a
/// list of (key, value) pairs in file order rather than a map keyed by name,
/// for Verus proves nothing of std's maps keyed by strings. Lookups
/// (`pair_lookup`) give the value of the last pair for a key, as a map
/// filled in file order would hold it.
#[verifier::loop_isolation(false)]
pub fn config_entries(text: &str) -> (r: Vec<(String, String)>)
    ensures
        pairs(r@) == config_pairs(split_lines(text@)),
{
    let v = chars_of(text);
    let ranges = crate::text::line_ranges(&v);
    let ghost lines = split_lines(v@);
    let mut r: Vec<(String, String)> = Vec::new();
    let mut i: usize = 0;
    assert(pairs(r@) =~= config_pairs(lines.subrange(0, 0)));
    while i < ranges.len()
        invariant
            0 <= i <= ranges.len(),
            pairs(r@) == config_pairs(lines.subrange(0, i as int)),
        decreases ranges.len() - i,
    {
        let (lo, hi) = ranges[i];
        let (a, b) = trim_range(&v, lo, hi);
        let ghost t = v@.subrange(a as int, b as int);
        if a < b && v[a] != '#' {
            let eq = find_char(&v, a, b, '=');
            if eq < b {
                let (ka, kb) = trim_range(&v, a, eq);
                let (va, vb) = trim_range(&v, eq + 1, b);
                assert(t.subrange(0, eq - a) =~= v@.subrange(a as int, eq as int));
                assert(t.subrange(eq - a + 1, t.len() as int) =~= v@.subrange(eq + 1, b as int));
                r.push((substring(text, ka, kb), substring(text, va, vb)));
            }
        }
        proof {
            let u = lines.subrange(0, i + 1);
            assert(u.subrange(0, i as int) =~= lines.subrange(0, i as int));
            assert(u[i as int] == lines[i as int]);
            assert(pairs(r@) =~= config_pairs(u));
        }
        i = i + 1;
    }
    assert(lines.subrange(0, ranges.len() as int) =~= lines);
    r
}

/// The value last given to `key`.
pub open spec fn pair_lookup(ps: Seq<(Seq<char>, Seq<char>)>, key: Seq<char>) -> Option<Seq<char>>
    decreases ps.len(),
{
    if ps.len() == 0 {
        None
    } else if ps[ps.len() - 1].0 == key {
        Some(ps[ps.len() - 1].1)
    } else {
        pair_lookup(ps.subrange(0, ps.len() - 1), key)
    }
}

/// The value last given to `key` in `entries`, as `pair_lookup` states it.
pub fn config_lookup(entries: &Vec<(String, String)>, key: &str) -> (r: Option<String>)
    ensures
        crate::config::opt_text(r) == pair_lookup(pairs(entries@), key@),
{
    let mut k = entries.len();
    let ghost ps = pairs(entries@);
    assert(ps.subrange(0, k as int) =~= ps);
    while k > 0
        invariant
            k <= entries.len(),
            ps == pairs(entries@),
            pair_lookup(ps, key@) == pair_lookup(ps.subrange(0, k as int), key@),
        decreases k,
    {
        let ghost p = ps.subrange(0, k as int);
        assert(p.subrange(0, p.len() - 1) =~= ps.subrange(0, k - 1));
        let kv = chars_of(entries[k - 1].0.as_str());
        if range_eq(&kv, 0, kv.len(), key) {
            assert(kv@.subrange(0, kv.len() as int) =~= kv@);
            return Some(entries[k - 1].1.clone());
        }
        assert(kv@.subrange(0, kv.len() as int) =~= kv@);
        k = k - 1;
    }
    None
}

/// Whether the setting of `marker` holds the value that turns it on.
pub open spec fn marker_is_enabled(ps: Seq<(Seq<char>, Seq<char>)>, marker: Seq<char>) -> bool {
    match marker_key(marker) {
        Some((key, on)) => pair_lookup(ps, key) == Some(on),
        None => false,
    }
}

pub fn marker_enabled(entries: &Vec<(String, String)>, marker: &str) -> (b: bool)
    ensures
        b == marker_is_enabled(pairs(entries@), marker@),
{
    match marker_config_key(marker) {
        Some((key, on)) => match config_lookup(entries, key) {
            Some(v) => {
                let w = chars_of(v.as_str());
                assert(w@.subrange(0, w.len() as int) =~= w@);
                range_eq(&w, 0, w.len(), on)
            },
            None => false,
        },
        None => false,
    }
}

/// The value of `key`, or `default`.
pub fn config_value(entries: &Vec<(String, String)>, key: &str, default: &str) -> (r: String)
    ensures
        r@ == match pair_lookup(pairs(entries@), key@) {
            Some(v) => v,
            None => default@,
        },
{
    match config_lookup(entries, key) {
        Some(v) => v,
        None => String::from_str(default),
    }
}

/// The configuration change that touching (`enabled`) or removing a marker
/// asks for, where the marker stands for a setting.
pub open spec fn marker_change(marker: Seq<char>, enabled: bool) -> Option<Seq<(Seq<char>, Seq<char>)>> {
    match marker_key(marker) {
        Some((key, on)) => Some(
            seq![
                (
                    key,
                    if enabled {
                        on
                    } else {
                        marker_off(marker)
                    },
                ),
            ],
        ),
        None => None,
    }
}

pub fn marker_updates(marker: &str, enabled: bool) -> (r: Option<Vec<(String, String)>>)
    ensures
        match r {
            Some(u) => marker_change(marker@, enabled) == Some(pairs(u@)),
            None => marker_change(marker@, enabled) is None,
        },
{
    match marker_config_key(marker) {
        Some((key, on)) => {
            let value = if enabled {
                String::from_str(on)
            } else {
                String::from_str(marker_disabled_value(marker))
            };
            let u = vec![(String::from_str(key), value)];
            assert(pairs(u@) =~= marker_change(marker@, enabled)->0);
            Some(u)
        },
        None => None,
    }
}

/// `s` without every leading copy of `p`.
pub open spec fn strip_leading(s: Seq<char>, p: Seq<char>) -> Seq<char>
    decreases s.len(),
{
    if p.len() > 0 && s.len() >= p.len() && s.subrange(0, p.len() as int) == p {
        strip_leading(s.subrange(p.len() as int, s.len() as int), p)
    } else {
        s
    }
}

/// `s` without every trailing copy of `p`.
pub open spec fn strip_trailing(s: Seq<char>, p: Seq<char>) -> Seq<char>
    decreases s.len(),
{
    if p.len() > 0 && s.len() >= p.len() && s.subrange(s.len() - p.len(), s.len() as int) == p {
        strip_trailing(s.subrange(0, s.len() - p.len()), p)
    } else {
        s
    }
}

/// The texts between pairs of single quotes, in order; an unpaired quote
/// ends the list.
pub open spec fn quoted(s: Seq<char>) -> Seq<Seq<char>>
    decreases s.len(),
{
    let a = index_of(s, '\'');
    if a >= s.len() {
        Seq::empty()
    } else {
        let r = s.subrange(a as int + 1, s.len() as int);
        let b = index_of(r, '\'');
        if b >= r.len() {
            Seq::empty()
        } else {
            seq![r.subrange(0, b as int)] + quoted(r.subrange(b as int + 1, r.len() as int))
        }
    }
}

pub open spec fn printf_values(command: Seq<char>) -> Seq<Seq<char>> {
    quoted(
        strip_trailing(
            strip_leading(command, "printf '%s\\n' "@),
            " > /data/local/tmp/utensil/thermalconfiguration"@,
        ),
    )
}

/// The quoted values of the web UI's thermal `printf` command.
pub fn parse_printf_values(command: &str) -> (r: Vec<String>)
    ensures
        texts(r@) == printf_values(command@),
{
    let v = chars_of(command);
    assert(v@.subrange(0, v.len() as int) =~= command@);
    let pre = "printf '%s\\n' ";
    let suf = " > /data/local/tmp/utensil/thermalconfiguration";
    let np = pre.unicode_len();
    let ns = suf.unicode_len();
    proof {
        reveal_strlit("printf '%s\\n' ");
        reveal_strlit(" > /data/local/tmp/utensil/thermalconfiguration");
    }
    let mut lo: usize = 0;
    while lo <= v.len() && v.len() - lo >= np && range_eq(&v, lo, lo + np, pre)
        invariant
            lo <= v.len(),
            v@ == command@,
            np == pre@.len(),
            np > 0,
            strip_leading(command@, pre@) == strip_leading(v@.subrange(lo as int, v.len() as int), pre@),
        decreases v.len() - lo,
    {
        let ghost s = v@.subrange(lo as int, v.len() as int);
        assert(s.subrange(0, np as int) =~= v@.subrange(lo as int, lo + np));
        assert(s.subrange(np as int, s.len() as int) =~= v@.subrange(lo + np, v.len() as int));
        lo = lo + np;
    }
    proof {
        let s = v@.subrange(lo as int, v.len() as int);
        if s.len() >= np {
            assert(s.subrange(0, np as int) =~= v@.subrange(lo as int, lo + np));
        }
    }
    let mut hi: usize = v.len();
    while hi - lo >= ns && range_eq(&v, hi - ns, hi, suf)
        invariant
            lo <= hi <= v.len(),
            v@ == command@,
            ns == suf@.len(),
            ns > 0,
            strip_trailing(strip_leading(command@, pre@), suf@) == strip_trailing(
                v@.subrange(lo as int, hi as int),
                suf@,
            ),
        decreases hi - lo,
    {
        let ghost s = v@.subrange(lo as int, hi as int);
        assert(s.subrange(s.len() - ns, s.len() as int) =~= v@.subrange(hi - ns, hi as int));
        assert(s.subrange(0, s.len() - ns) =~= v@.subrange(lo as int, hi - ns));
        hi = hi - ns;
    }
    proof {
        let s = v@.subrange(lo as int, hi as int);
        if s.len() >= ns {
            assert(s.subrange(s.len() - ns, s.len() as int) =~= v@.subrange(hi - ns, hi as int));
        }
    }
    let mut out: Vec<String> = Vec::new();
    let mut pos = lo;
    loop
        invariant
            lo <= pos <= hi <= v.len(),
            v@ == command@,
            texts(out@) + quoted(v@.subrange(pos as int, hi as int)) == printf_values(command@),
        decreases hi - pos,
    {
        let ghost s = v@.subrange(pos as int, hi as int);
        let a = find_char(&v, pos, hi, '\'');
        proof {
            lemma_index_of_bounds(s, '\'');
        }
        if a == hi {
            assert(texts(out@) =~= printf_values(command@));
            return out;
        }
        let ghost r = s.subrange(a - pos + 1, s.len() as int);
        assert(r =~= v@.subrange(a + 1, hi as int));
        let b = find_char(&v, a + 1, hi, '\'');
        proof {
            lemma_index_of_bounds(r, '\'');
        }
        if b == hi {
            assert(texts(out@) =~= printf_values(command@));
            return out;
        }
        assert(r.subrange(0, b - a - 1) =~= v@.subrange(a + 1, b as int));
        assert(r.subrange(b - a - 1 + 1, r.len() as int) =~= v@.subrange(b + 1, hi as int));
        let ghost before = texts(out@);
        out.push(substring(command, a + 1, b));
        assert(texts(out@) =~= before.push(v@.subrange(a + 1, b as int)));
        pos = b + 1;
    }
}

/// Whether a listen address is on the loopback interface.
pub open spec fn loopback(address: Seq<char>) -> bool {
    (address.len() >= 4 && address.subrange(0, 4) == "127."@) || (address.len() >= 10
        && address.subrange(0, 10) == "localhost:"@)
}

pub fn is_loopback(address: &str) -> (b: bool)
    ensures
        b == loopback(address@),
{
    let v = chars_of(address);
    assert(v@.subrange(0, v.len() as int) =~= address@);
    proof {
        reveal_strlit("127.");
        reveal_strlit("localhost:");
    }
    let a = range_starts_with(&v, 0, v.len(), "127.");
    let b = range_starts_with(&v, 0, v.len(), "localhost:");
    a || b
}

/// The lowercase hexadecimal digit for `d < 16`.
pub open spec fn hex_digit(d: nat) -> char {
    seq!['0', '1', '2', '3', '4', '5', '6', '7', '8', '9', 'a', 'b', 'c', 'd', 'e', 'f'][d as int]
}

/// Whether `c` is a control character (`char::is_control`).
pub open spec fn is_control(c: char) -> bool {
    (c as u32) < 0x20 || (0x7f <= (c as u32) && (c as u32) <= 0x9f)
}

/// How one character is written inside a JSON string.
pub open spec fn json_char(c: char) -> Seq<char> {
    if c == '\\' {
        seq!['\\', '\\']
    } else if c == '"' {
        seq!['\\', '"']
    } else if c == '\n' {
        seq!['\\', 'n']
    } else if c == '\r' {
        seq!['\\', 'r']
    } else if c == '\t' {
        seq!['\\', 't']
    } else if is_control(c) {
        let u = c as u32 as nat;
        seq![
            '\\',
            'u',
            hex_digit(u / 4096),
            hex_digit((u / 256) % 16),
            hex_digit((u / 16) % 16),
            hex_digit(u % 16),
        ]
    } else {
        seq![c]
    }
}

/// `s` escaped for a JSON string.
pub open spec fn json_escaped(s: Seq<char>) -> Seq<char>
    decreases s.len(),
{
    if s.len() == 0 {
        Seq::empty()
    } else {
        json_escaped(s.subrange(0, s.len() - 1)) + json_char(s[s.len() - 1])
    }
}

fn push_hex(out: &mut String, d: u32)
    requires
        d < 16,
    ensures
        final(out)@ == old(out)@.push(hex_digit(d as nat)),
{
    let ds = ['0', '1', '2', '3', '4', '5', '6', '7', '8', '9', 'a', 'b', 'c', 'd', 'e', 'f'];
    assert(ds@ =~= seq!['0', '1', '2', '3', '4', '5', '6', '7', '8', '9', 'a', 'b', 'c', 'd', 'e', 'f']);
    out.push(ds[d as usize]);
}

/// `value` escaped for a JSON string, as `json_escaped` states it.
pub fn json_escape(value: &str) -> (r: String)
    ensures
        r@ == json_escaped(value@),
{
    let v = chars_of(value);
    let mut out = String::new();
    let mut i: usize = 0;
    assert(out@ =~= json_escaped(v@.subrange(0, 0)));
    while i < v.len()
        invariant
            0 <= i <= v.len(),
            v@ == value@,
            out@ == json_escaped(v@.subrange(0, i as int)),
        decreases v.len() - i,
    {
        let c = v[i];
        let ghost before = out@;
        let u = c as u32;
        if c == '\\' {
            out.push('\\');
            out.push('\\');
        } else if c == '"' {
            out.push('\\');
            out.push('"');
        } else if c == '\n' {
            out.push('\\');
            out.push('n');
        } else if c == '\r' {
            out.push('\\');
            out.push('r');
        } else if c == '\t' {
            out.push('\\');
            out.push('t');
        } else if u < 0x20 || (0x7f <= u && u <= 0x9f) {
            out.push('\\');
            out.push('u');
            push_hex(&mut out, u / 4096);
            push_hex(&mut out, (u / 256) % 16);
            push_hex(&mut out, (u / 16) % 16);
            push_hex(&mut out, u % 16);
        } else {
            out.push(c);
        }
        proof {
            let p = v@.subrange(0, i + 1);
            assert(p.subrange(0, i as int) =~= v@.subrange(0, i as int));
            assert(p[i as int] == c);
            assert(out@ =~= before + json_char(c));
        }
        i = i + 1;
    }
    assert(v@.subrange(0, v.len() as int) =~= value@);
    out
}

/// The key of a `key=value` line, trimmed; `None` where the line has no `=`.
pub open spec fn line_setting_key(line: Seq<char>) -> Option<Seq<char>> {
    let eq = index_of(line, '=');
    if eq < line.len() {
        Some(trim(line.subrange(0, eq as int)))
    } else {
        None
    }
}

/// A line with its value replaced where `updates` holds its key.
pub open spec fn updated_line(line: Seq<char>, updates: Seq<(Seq<char>, Seq<char>)>) -> Seq<char> {
    match line_setting_key(line) {
        Some(k) => match pair_lookup(updates, k) {
            Some(v) => k + "="@ + v,
            None => line,
        },
        None => line,
    }
}

/// Whether some line of `lines` sets `key`.
pub open spec fn sets_key(lines: Seq<Seq<char>>, key: Seq<char>) -> bool {
    exists|i: int| 0 <= i < lines.len() && line_setting_key(#[trigger] lines[i]) == Some(key)
}

/// The `key=value` lines added for the updates that no line sets, in order.
pub open spec fn appended_settings(lines: Seq<Seq<char>>, updates: Seq<(Seq<char>, Seq<char>)>) -> Seq<
    Seq<char>,
>
    decreases updates.len(),
{
    if updates.len() == 0 {
        Seq::empty()
    } else {
        let u = updates[updates.len() - 1];
        appended_settings(lines, updates.subrange(0, updates.len() - 1)) + if sets_key(lines, u.0) {
            Seq::empty()
        } else {
            seq![u.0 + "="@ + u.1]
        }
    }
}

/// The configuration text after `updates`: every line that sets one of
/// their keys rewritten as `key=value`, the other lines kept, the settings
/// that no line held added at the end, one line break after each line.
pub open spec fn updated_config(text: Seq<char>, updates: Seq<(Seq<char>, Seq<char>)>) -> Seq<char> {
    let lines = text_lines(text);
    let out = lines.map_values(|l: Seq<char>| updated_line(l, updates)) + appended_settings(
        lines,
        updates,
    );
    if out.len() == 0 {
        seq!['\n']
    } else {
        crate::config::join_lines(out)
    }
}

fn rewrite_line(line: &String, updates: &Vec<(String, String)>) -> (r: (String, Option<String>))
    ensures
        r.0@ == updated_line(line@, pairs(updates@)),
        crate::config::opt_text(r.1) == line_setting_key(line@),
{
    let v = chars_of(line.as_str());
    assert(v@.subrange(0, v.len() as int) =~= v@);
    let eq = find_char(&v, 0, v.len(), '=');
    if eq < v.len() {
        let (a, b) = trim_range(&v, 0, eq);
        let key = substring(line.as_str(), a, b);
        let key2 = key.clone();
        match config_lookup(updates, key.as_str()) {
            Some(value) => {
                let mut out = key;
                out.append("=");
                out.append(value.as_str());
                proof {
                    reveal_strlit("=");
                }
                (out, Some(key2))
            },
            None => (line.clone(), Some(key2)),
        }
    } else {
        (line.clone(), None)
    }
}

fn contains_text(list: &Vec<String>, s: &String) -> (b: bool)
    ensures
        b == texts(list@).contains(s@),
{
    let mut i: usize = 0;
    while i < list.len()
        invariant
            0 <= i <= list.len(),
            forall|j: int| 0 <= j < i ==> list@[j]@ != s@,
        decreases list.len() - i,
    {
        if crate::text::strings_equal(&list[i], s) {
            assert(texts(list@)[i as int] == s@);
            return true;
        }
        i = i + 1;
    }
    assert forall|j: int| 0 <= j < texts(list@).len() implies texts(list@)[j] != s@ by {
        assert(texts(list@)[j] == list@[j]@);
    }
    false
}

/// The configuration text after `updates`, as `updated_config` states it.
#[verifier::loop_isolation(false)]
pub fn update_config_text(text: &str, updates: &Vec<(String, String)>) -> (r: String)
    ensures
        r@ == updated_config(text@, pairs(updates@)),
{
    let lines = lines_of(text);
    let ghost ls = text_lines(text@);
    let ghost ups = pairs(updates@);
    let mut out: Vec<String> = Vec::new();
    let mut keys: Vec<String> = Vec::new();
    let mut i: usize = 0;
    while i < lines.len()
        invariant
            0 <= i <= lines.len(),
            texts(lines@) == ls,
            out.len() == i,
            forall|j: int| 0 <= j < i ==> (#[trigger] out@[j])@ == updated_line(ls[j], ups),
            forall|k: Seq<char>| texts(keys@).contains(k) <==> sets_key(ls.subrange(0, i as int), k),
        decreases lines.len() - i,
    {
        let (l, key) = rewrite_line(&lines[i], updates);
        assert(lines@[i as int]@ == ls[i as int]);
        proof {
            let before = ls.subrange(0, i as int);
            let after = ls.subrange(0, i + 1);
            assert forall|k: Seq<char>| sets_key(before, k) ==> sets_key(after, k) by {
                if sets_key(before, k) {
                    let j = choose|j: int| 0 <= j < before.len() && line_setting_key(#[trigger] before[j]) == Some(k);
                    assert(after[j] == before[j]);
                }
            }
            assert forall|k: Seq<char>| sets_key(after, k) ==> sets_key(before, k) || line_setting_key(ls[i as int]) == Some(k) by {
                if sets_key(after, k) {
                    let j = choose|j: int| 0 <= j < after.len() && line_setting_key(#[trigger] after[j]) == Some(k);
                    if j < i {
                        assert(before[j] == after[j]);
                    }
                }
            }
            assert(after[i as int] == ls[i as int]);
        }
        let ghost old_keys = texts(keys@);
        match key {
            Some(k) => {
                keys.push(k);
                proof {
                    assert(texts(keys@) =~= old_keys.push(line_setting_key(ls[i as int])->0));
                    let kk = line_setting_key(ls[i as int])->0;
                    let after = ls.subrange(0, i + 1);
                    assert(after[i as int] == ls[i as int]);
                    assert(sets_key(after, kk));
                    assert(texts(keys@)[old_keys.len() as int] == kk);
                    assert forall|k2: Seq<char>| texts(keys@).contains(k2) <==> sets_key(ls.subrange(0, i + 1), k2) by {
                        assert(old_keys.contains(k2) <==> sets_key(ls.subrange(0, i as int), k2));
                        if k2 == kk {
                            assert(texts(keys@)[old_keys.len() as int] == k2);
                        }
                        if old_keys.contains(k2) {
                            let j = choose|j: int| 0 <= j < old_keys.len() && old_keys[j] == k2;
                            assert(texts(keys@)[j] == k2);
                        }
                        if texts(keys@).contains(k2) && k2 != line_setting_key(ls[i as int])->0 {
                            let j = choose|j: int| 0 <= j < texts(keys@).len() && texts(keys@)[j] == k2;
                            assert(old_keys[j] == k2);
                        }
                    }
                }
            },
            None => {
                proof {
                    assert forall|k2: Seq<char>| texts(keys@).contains(k2) <==> sets_key(ls.subrange(0, i + 1), k2) by {
                    }
                }
            },
        }
        out.push(l);
        i = i + 1;
    }
    assert(ls.subrange(0, lines.len() as int) =~= ls);
    let n = out.len();
    let mut u: usize = 0;
    while u < updates.len()
        invariant
            0 <= u <= updates.len(),
            n == ls.len(),
            out.len() >= n,
            forall|j: int| 0 <= j < n ==> (#[trigger] out@[j])@ == updated_line(ls[j], ups),
            texts(out@).subrange(n as int, out.len() as int) == appended_settings(
                ls,
                ups.subrange(0, u as int),
            ),
            forall|k: Seq<char>| texts(keys@).contains(k) <==> sets_key(ls, k),
        decreases updates.len() - u,
    {
        let ghost before = texts(out@);
        let ghost sub = ups.subrange(0, u + 1);
        assert(sub.subrange(0, u as int) =~= ups.subrange(0, u as int));
        assert(sub[u as int] == ups[u as int]);
        if !contains_text(&keys, &updates[u].0) {
            let mut line = updates[u].0.clone();
            line.append("=");
            line.append(updates[u].1.as_str());
            proof {
                reveal_strlit("=");
            }
            out.push(line);
            assert(texts(out@).subrange(n as int, out.len() as int) =~= before.subrange(
                n as int,
                before.len() as int,
            ).push(line@));
        }
        u = u + 1;
    }
    assert(ups.subrange(0, updates.len() as int) =~= ups);
    let ghost all = ls.map_values(|l: Seq<char>| updated_line(l, ups)) + appended_settings(ls, ups);
    assert(texts(out@) =~= all) by {
        assert forall|j: int| 0 <= j < n implies texts(out@)[j] == all[j] by {
            assert(out@[j]@ == updated_line(ls[j], ups));
        }
        assert forall|j: int| n <= j < out.len() implies texts(out@)[j] == all[j] by {
            assert(texts(out@)[j] == texts(out@).subrange(n as int, out.len() as int)[j - n]);
        }
    }
    if out.len() == 0 {
        let r = String::from_str("\n");
        proof {
            reveal_strlit("\n");
        }
        r
    } else {
        crate::config::join_line_texts(&out)
    }
}

// ---------------------------------------------------------------------------
// Reading back what the bridge wrote
// ---------------------------------------------------------------------------

/// Updates that name each setting once.
pub open spec fn distinct_keys(ups: Seq<(Seq<char>, Seq<char>)>) -> bool {
    forall|i: int, j: int| 0 <= i < ups.len() && 0 <= j < ups.len() && i != j ==> ups[i].0 != ups[j].0
}

/// Updates whose names and values read back as written.
pub open spec fn clean_updates(ups: Seq<(Seq<char>, Seq<char>)>) -> bool {
    forall|i: int| 0 <= i < ups.len() ==> clean_key(#[trigger] ups[i].0) && clean_value(ups[i].1)
}

proof fn lemma_trim_start_shape(s: Seq<char>) -> (a: int)
    ensures
        0 <= a <= s.len(),
        crate::text::trim_start(s) == s.subrange(a, s.len() as int),
        forall|j: int| 0 <= j < a ==> is_ws(s[j]),
    decreases s.len(),
{
    if s.len() > 0 && is_ws(s[0]) {
        let t = s.subrange(1, s.len() as int);
        let b = lemma_trim_start_shape(t);
        assert(t.subrange(b, t.len() as int) =~= s.subrange(b + 1, s.len() as int));
        assert forall|j: int| 0 <= j < b + 1 implies is_ws(s[j]) by {
            if j > 0 {
                assert(s[j] == t[j - 1]);
            }
        }
        b + 1
    } else {
        assert(s.subrange(0, s.len() as int) =~= s);
        0
    }
}

proof fn lemma_trim_end_shape(s: Seq<char>) -> (b: int)
    ensures
        0 <= b <= s.len(),
        crate::text::trim_end(s) == s.subrange(0, b),
    decreases s.len(),
{
    if s.len() > 0 && is_ws(s[s.len() - 1]) {
        let t = s.subrange(0, s.len() - 1);
        let b = lemma_trim_end_shape(t);
        assert(t.subrange(0, b) =~= s.subrange(0, b));
        b
    } else {
        assert(s.subrange(0, s.len() as int) =~= s);
        s.len() as int
    }
}

proof fn lemma_trim_start_skip(s: Seq<char>, a: int)
    requires
        0 <= a <= s.len(),
        forall|j: int| 0 <= j < a ==> is_ws(s[j]),
    ensures
        crate::text::trim_start(s) == crate::text::trim_start(s.subrange(a, s.len() as int)),
    decreases a,
{
    if a > 0 {
        let t = s.subrange(1, s.len() as int);
        assert(is_ws(s[0]));
        assert forall|j: int| 0 <= j < a - 1 implies is_ws(t[j]) by {
            assert(t[j] == s[j + 1]);
        }
        lemma_trim_start_skip(t, a - 1);
        assert(t.subrange(a - 1, t.len() as int) =~= s.subrange(a, s.len() as int));
    } else {
        assert(s.subrange(0, s.len() as int) =~= s);
    }
}

/// The setting a line holds is named by the line's key.
proof fn lemma_line_pairs_key(l: Seq<char>)
    ensures
        line_pairs(l).len() <= 1,
        line_pairs(l).len() == 1 ==> line_setting_key(l) == Some(line_pairs(l)[0].0),
{
    let a = lemma_trim_start_shape(l);
    let t1 = l.subrange(a, l.len() as int);
    let b = lemma_trim_end_shape(t1);
    let t = trim(l);
    assert(t =~= l.subrange(a, a + b));
    if line_pairs(l).len() == 1 {
        let e = index_of(t, '=');
        lemma_index_of_bounds(t, '=');
        assert(!is_ws('='));
        assert forall|j: int| 0 <= j < a + e implies l[j] != '=' by {
            if j >= a {
                assert(l[j] == t[j - a]);
            }
        }
        assert(l[a + e] == t[e as int]);
        crate::text::lemma_index_of(l, '=', a + e);
        let pre = l.subrange(0, a + e);
        assert forall|j: int| 0 <= j < a implies is_ws(pre[j]) by {
            assert(pre[j] == l[j]);
        }
        lemma_trim_start_skip(pre, a);
        assert(pre.subrange(a, pre.len() as int) =~= t.subrange(0, e as int));
    }
}

/// A clean `key=value` line holds exactly that setting.
proof fn lemma_clean_line(k: Seq<char>, v: Seq<char>)
    requires
        clean_key(k),
        clean_value(v),
    ensures
        line_pairs(k + "="@ + v) == seq![(k, v)],
        line_setting_key(k + "="@ + v) == Some(k),
        no_newline(k + "="@ + v),
{
    reveal_strlit("=");
    let s = k + "="@ + v;
    assert(s[0] == k[0]);
    assert(!is_ws('='));
    assert(s[s.len() - 1] == if v.len() > 0 {
        v[v.len() - 1]
    } else {
        '='
    });
    assert(crate::text::trim_start(s) == s);
    assert(crate::text::trim_end(s) == s);
    assert forall|j: int| 0 <= j < k.len() implies s[j] != '=' by {
        assert(s[j] == k[j]);
    }
    assert(s[k.len() as int] == '=');
    crate::text::lemma_index_of(s, '=', k.len() as int);
    assert(s.subrange(0, k.len() as int) =~= k);
    assert(s.subrange(k.len() as int + 1, s.len() as int) =~= v);
    assert(crate::text::trim_start(k) == k);
    assert(crate::text::trim_end(k) == k);
    if v.len() > 0 {
        assert(crate::text::trim_start(v) == v);
        assert(crate::text::trim_end(v) == v);
    }
    assert forall|j: int| 0 <= j < s.len() implies s[j] != '\n' by {
        if j < k.len() {
            assert(s[j] == k[j]);
        } else if j > k.len() {
            assert(s[j] == v[j - k.len() - 1]);
        }
    }
}

proof fn lemma_split_lines_no_newline(s: Seq<char>)
    ensures
        forall|i: int| 0 <= i < split_lines(s).len() ==> no_newline(#[trigger] split_lines(s)[i]),
    decreases s.len(),
{
    let nl = index_of(s, '\n');
    lemma_index_of_bounds(s, '\n');
    if nl < s.len() {
        let rest = s.subrange(nl as int + 1, s.len() as int);
        lemma_split_lines_no_newline(rest);
        assert forall|i: int| 0 <= i < split_lines(s).len() implies no_newline(#[trigger] split_lines(s)[i]) by {
            if i > 0 {
                assert(split_lines(s)[i] == split_lines(rest)[i - 1]);
            } else {
                assert(split_lines(s)[0] == s.subrange(0, nl as int));
            }
        }
    }
}

proof fn lemma_text_lines_no_newline(s: Seq<char>)
    ensures
        forall|i: int| 0 <= i < text_lines(s).len() ==> no_newline(#[trigger] text_lines(s)[i]),
{
    lemma_split_lines_no_newline(s);
    crate::text::lemma_split_lines_nonempty(s);
    let p = split_lines(s);
    assert forall|i: int| 0 <= i < text_lines(s).len() implies no_newline(#[trigger] text_lines(s)[i]) by {
        if i < p.len() - 1 {
            let l = p[i];
            assert(no_newline(l));
            assert(text_lines(s)[i] == crate::text::strip_cr(l));
        } else {
            assert(text_lines(s)[i] == p[p.len() - 1]);
            assert(no_newline(p[p.len() - 1]));
        }
    }
}

proof fn lemma_split_join(out: Seq<Seq<char>>)
    requires
        forall|i: int| 0 <= i < out.len() ==> no_newline(#[trigger] out[i]),
    ensures
        split_lines(crate::config::join_lines(out)) == out.push(Seq::empty()),
    decreases out.len(),
{
    if out.len() == 0 {
        assert(split_lines(Seq::<char>::empty()) =~= seq![Seq::<char>::empty()]);
        assert(out.push(Seq::empty()) =~= seq![Seq::<char>::empty()]);
    } else {
        crate::config::lemma_join_front(out);
        let rest = out.subrange(1, out.len() as int);
        lemma_split_join(rest);
        let j = crate::config::join_lines(out);
        let l0 = out[0];
        assert(no_newline(l0));
        assert forall|x: int| 0 <= x < l0.len() implies j[x] != '\n' by {
            assert(j[x] == l0[x]);
        }
        assert(j[l0.len() as int] == '\n');
        crate::text::lemma_index_of(j, '\n', l0.len() as int);
        assert(j.subrange(0, l0.len() as int) =~= l0);
        assert(j.subrange(l0.len() as int + 1, j.len() as int) =~= crate::config::join_lines(rest));
        assert(split_lines(j) =~= seq![l0] + rest.push(Seq::empty()));
        assert(seq![l0] + rest.push(Seq::empty()) =~= out.push(Seq::empty()));
    }
}

/// Every setting named `k` among `ps` has the value `v`.
pub open spec fn only_value(ps: Seq<(Seq<char>, Seq<char>)>, k: Seq<char>, v: Seq<char>) -> bool {
    forall|i: int| 0 <= i < ps.len() && (#[trigger] ps[i]).0 == k ==> ps[i].1 == v
}

/// Some setting among `ps` gives `k` the value `v`.
pub open spec fn has_pair(ps: Seq<(Seq<char>, Seq<char>)>, k: Seq<char>, v: Seq<char>) -> bool {
    exists|i: int| 0 <= i < ps.len() && #[trigger] ps[i] == (k, v)
}

proof fn lemma_lookup_found(ps: Seq<(Seq<char>, Seq<char>)>, k: Seq<char>, v: Seq<char>)
    requires
        only_value(ps, k, v),
        has_pair(ps, k, v),
    ensures
        pair_lookup(ps, k) == Some(v),
    decreases ps.len(),
{
    let n = ps.len();
    let w = choose|i: int| 0 <= i < ps.len() && #[trigger] ps[i] == (k, v);
    if ps[n - 1].0 != k {
        let init = ps.subrange(0, n - 1);
        assert(w != n - 1);
        assert(init[w] == ps[w]);
        assert forall|i: int| 0 <= i < init.len() && (#[trigger] init[i]).0 == k implies init[i].1 == v by {
            assert(init[i] == ps[i]);
        }
        lemma_lookup_found(init, k, v);
    } else {
        assert(ps[n - 1].1 == v);
    }
}

proof fn lemma_lookup_member(ps: Seq<(Seq<char>, Seq<char>)>, k: Seq<char>) -> (i: int)
    requires
        pair_lookup(ps, k) is Some,
    ensures
        0 <= i < ps.len(),
        ps[i] == (k, pair_lookup(ps, k)->0),
    decreases ps.len(),
{
    let n = ps.len();
    if ps[n - 1].0 == k {
        n - 1
    } else {
        let init = ps.subrange(0, n - 1);
        let i = lemma_lookup_member(init, k);
        assert(init[i] == ps[i]);
        i
    }
}

proof fn lemma_lookup_distinct(ps: Seq<(Seq<char>, Seq<char>)>, i: int)
    requires
        distinct_keys(ps),
        0 <= i < ps.len(),
    ensures
        pair_lookup(ps, ps[i].0) == Some(ps[i].1),
    decreases ps.len(),
{
    let n = ps.len();
    if i != n - 1 {
        let init = ps.subrange(0, n - 1);
        assert(ps[n - 1].0 != ps[i].0);
        assert(init[i] == ps[i]);
        assert forall|a: int, b: int| 0 <= a < init.len() && 0 <= b < init.len() && a != b implies init[a].0 != init[b].0 by {
            assert(init[a] == ps[a]);
            assert(init[b] == ps[b]);
        }
        lemma_lookup_distinct(init, i);
    }
}

proof fn lemma_config_pairs_only(out: Seq<Seq<char>>, k: Seq<char>, v: Seq<char>)
    requires
        forall|i: int| 0 <= i < out.len() ==> only_value(line_pairs(#[trigger] out[i]), k, v),
    ensures
        only_value(config_pairs(out), k, v),
    decreases out.len(),
{
    if out.len() > 0 {
        let n = out.len();
        let init = out.subrange(0, n - 1);
        assert forall|i: int| 0 <= i < init.len() implies only_value(line_pairs(#[trigger] init[i]), k, v) by {
            assert(init[i] == out[i]);
        }
        lemma_config_pairs_only(init, k, v);
        let a = config_pairs(init);
        let b = line_pairs(out[n - 1]);
        assert(only_value(b, k, v));
        assert(config_pairs(out) == a + b);
        assert forall|i: int| 0 <= i < (a + b).len() && (#[trigger] (a + b)[i]).0 == k implies (a + b)[i].1 == v by {
            if i < a.len() {
                assert((a + b)[i] == a[i]);
            } else {
                assert((a + b)[i] == b[i - a.len()]);
            }
        }
    }
}

proof fn lemma_config_pairs_has(out: Seq<Seq<char>>, w: int, k: Seq<char>, v: Seq<char>)
    requires
        0 <= w < out.len(),
        line_pairs(out[w]) == seq![(k, v)],
    ensures
        has_pair(config_pairs(out), k, v),
    decreases out.len(),
{
    let n = out.len();
    let init = out.subrange(0, n - 1);
    let a = config_pairs(init);
    let b = line_pairs(out[n - 1]);
    assert(config_pairs(out) == a + b);
    if w == n - 1 {
        assert((a + b)[a.len() as int] == (k, v));
    } else {
        assert(init[w] == out[w]);
        lemma_config_pairs_has(init, w, k, v);
        let x = choose|x: int| 0 <= x < a.len() && #[trigger] a[x] == (k, v);
        assert((a + b)[x] == a[x]);
    }
}

proof fn lemma_appended_shape(ls: Seq<Seq<char>>, ups: Seq<(Seq<char>, Seq<char>)>, j: int) -> (m: int)
    requires
        0 <= j < appended_settings(ls, ups).len(),
    ensures
        0 <= m < ups.len(),
        appended_settings(ls, ups)[j] == ups[m].0 + "="@ + ups[m].1,
    decreases ups.len(),
{
    let n = ups.len();
    let init = ups.subrange(0, n - 1);
    let a = appended_settings(ls, init);
    if j < a.len() {
        let m = lemma_appended_shape(ls, init, j);
        assert(init[m] == ups[m]);
        m
    } else {
        n - 1
    }
}

proof fn lemma_appended_has(ls: Seq<Seq<char>>, ups: Seq<(Seq<char>, Seq<char>)>, i: int) -> (j: int)
    requires
        0 <= i < ups.len(),
        !sets_key(ls, ups[i].0),
    ensures
        0 <= j < appended_settings(ls, ups).len(),
        appended_settings(ls, ups)[j] == ups[i].0 + "="@ + ups[i].1,
    decreases ups.len(),
{
    let n = ups.len();
    let init = ups.subrange(0, n - 1);
    let a = appended_settings(ls, init);
    if i < n - 1 {
        assert(init[i] == ups[i]);
        let j = lemma_appended_has(ls, init, i);
        j
    } else {
        a.len() as int
    }
}

/// Reading back a rewritten configuration gives every updated setting the
/// value that was written, where the updates name each setting once and
/// their names and values read back as written.
pub proof fn lemma_update_then_read(text: Seq<char>, ups: Seq<(Seq<char>, Seq<char>)>, i: int)
    requires
        distinct_keys(ups),
        clean_updates(ups),
        0 <= i < ups.len(),
    ensures
        pair_lookup(config_pairs(split_lines(updated_config(text, ups))), ups[i].0) == Some(ups[i].1),
{
    let ls = text_lines(text);
    let body = ls.map_values(|l: Seq<char>| updated_line(l, ups));
    let app = appended_settings(ls, ups);
    let out = body + app;
    let k = ups[i].0;
    let v = ups[i].1;
    lemma_lookup_distinct(ups, i);
    lemma_text_lines_no_newline(text);
    assert(clean_key(ups[i].0));
    lemma_clean_line(k, v);
    // Each line of the rewritten text names `k` only with `v`.
    assert forall|x: int| 0 <= x < out.len() implies no_newline(#[trigger] out[x]) && only_value(
        line_pairs(out[x]),
        k,
        v,
    ) by {
        if x < body.len() {
            let l = ls[x];
            assert(out[x] == updated_line(l, ups));
            match line_setting_key(l) {
                Some(k2) => match pair_lookup(ups, k2) {
                    Some(v2) => {
                        let m = lemma_lookup_member(ups, k2);
                        assert(clean_key(ups[m].0));
                        lemma_clean_line(k2, v2);
                        if k2 == k {
                            assert(v2 == v);
                        }
                    },
                    None => {
                        lemma_line_pairs_key(l);
                        assert(no_newline(ls[x]));
                    },
                },
                None => {
                    lemma_line_pairs_key(l);
                    assert(no_newline(ls[x]));
                },
            }
        } else {
            let m = lemma_appended_shape(ls, ups, x - body.len());
            assert(out[x] == app[x - body.len()]);
            assert(clean_key(ups[m].0));
            lemma_clean_line(ups[m].0, ups[m].1);
            if ups[m].0 == k {
                assert(m == i);
            }
        }
    }
    // Some line gives `k` the value `v`.
    let w: int = if sets_key(ls, k) {
        let x = choose|x: int| 0 <= x < ls.len() && line_setting_key(#[trigger] ls[x]) == Some(k);
        assert(out[x] == updated_line(ls[x], ups));
        x
    } else {
        let j = lemma_appended_has(ls, ups, i);
        assert(out[body.len() + j] == app[j]);
        body.len() + j
    };
    assert(out[w] == k + "="@ + v);
    assert(out.len() > 0);
    lemma_split_join(out);
    let lines = out.push(Seq::empty());
    assert(lines.subrange(0, lines.len() - 1) =~= out);
    assert(line_pairs(Seq::<char>::empty()) =~= Seq::<(Seq<char>, Seq<char>)>::empty());
    assert(config_pairs(lines) =~= config_pairs(out));
    assert forall|x: int| 0 <= x < out.len() implies only_value(line_pairs(#[trigger] out[x]), k, v) by {
    }
    lemma_config_pairs_only(out, k, v);
    lemma_config_pairs_has(out, w, k, v);
    lemma_lookup_found(config_pairs(out), k, v);
}

/// The value that the last `name=value` among `values` gives `name`, each
/// value split at its first `=`.
pub open spec fn last_assignment(values: Seq<Seq<char>>, name: Seq<char>) -> Option<Seq<char>>
    decreases values.len(),
{
    if values.len() == 0 {
        None
    } else {
        let v = values[values.len() - 1];
        let eq = index_of(v, '=');
        if eq < v.len() && v.subrange(0, eq as int) == name {
            Some(v.subrange(eq as int + 1, v.len() as int))
        } else {
            last_assignment(values.subrange(0, values.len() - 1), name)
        }
    }
}

pub open spec fn opt_setting(key: Seq<char>, value: Option<Seq<char>>) -> Seq<(Seq<char>, Seq<char>)> {
    match value {
        Some(v) => seq![(key, v)],
        None => Seq::empty(),
    }
}

/// The configuration change that the web UI's thermal `printf` asks for,
/// in key order: each thermal level it assigns, and thermal management on.
pub open spec fn thermal_change(values: Seq<Seq<char>>) -> Seq<(Seq<char>, Seq<char>)> {
    opt_setting("thermal.critical_level"@, last_assignment(values, "thermal_critical_level"@))
        + opt_setting(
        "thermal.discharging_critical"@,
        last_assignment(values, "thermal_discharging_critical"@),
    ) + opt_setting("thermal.discharging_low"@, last_assignment(values, "thermal_discharging_low"@))
        + opt_setting(
        "thermal.discharging_normal"@,
        last_assignment(values, "thermal_discharging_normal"@),
    ) + seq![("thermal.enabled"@, "true"@)]
}

fn last_assignment_of(values: &Vec<String>, name: &str) -> (r: Option<String>)
    ensures
        crate::config::opt_text(r) == last_assignment(texts(values@), name@),
{
    let ghost vs = texts(values@);
    let mut k = values.len();
    assert(vs.subrange(0, k as int) =~= vs);
    while k > 0
        invariant
            k <= values.len(),
            vs == texts(values@),
            last_assignment(vs, name@) == last_assignment(vs.subrange(0, k as int), name@),
        decreases k,
    {
        let ghost p = vs.subrange(0, k as int);
        assert(p.subrange(0, p.len() - 1) =~= vs.subrange(0, k - 1));
        assert(p[p.len() - 1] == values@[k - 1]@);
        let v = chars_of(values[k - 1].as_str());
        assert(v@.subrange(0, v.len() as int) =~= v@);
        let eq = find_char(&v, 0, v.len(), '=');
        if eq < v.len() && range_eq(&v, 0, eq, name) {
            return Some(substring(values[k - 1].as_str(), eq + 1, v.len()));
        }
        k = k - 1;
    }
    None
}

fn push_setting(out: &mut Vec<(String, String)>, key: &str, value: Option<String>)
    ensures
        pairs(final(out)@) == pairs(old(out)@) + opt_setting(key@, crate::config::opt_text(value)),
{
    match value {
        Some(v) => {
            out.push((String::from_str(key), v));
            assert(pairs(out@) =~= pairs(old(out)@) + opt_setting(key@, crate::config::opt_text(Some(v))));
        },
        None => {
            assert(pairs(out@) =~= pairs(old(out)@) + opt_setting(key@, None));
        },
    }
}

/// The thermal settings that the quoted `values` assign, as
/// `thermal_change` states them.
pub fn thermal_updates(values: &Vec<String>) -> (r: Vec<(String, String)>)
    ensures
        pairs(r@) == thermal_change(texts(values@)),
{
    let mut r: Vec<(String, String)> = Vec::new();
    push_setting(&mut r, "thermal.critical_level", last_assignment_of(values, "thermal_critical_level"));
    push_setting(&mut r, "thermal.discharging_critical", last_assignment_of(values, "thermal_discharging_critical"));
    push_setting(&mut r, "thermal.discharging_low", last_assignment_of(values, "thermal_discharging_low"));
    push_setting(&mut r, "thermal.discharging_normal", last_assignment_of(values, "thermal_discharging_normal"));
    push_setting(&mut r, "thermal.enabled", Some(String::from_str("true")));
    assert(pairs(r@) =~= thermal_change(texts(values@)));
    r
}

/// The value of `key` among `ps`, or `default`.
pub open spec fn value_or(ps: Seq<(Seq<char>, Seq<char>)>, key: Seq<char>, default: Seq<char>) -> Seq<char> {
    match pair_lookup(ps, key) {
        Some(v) => v,
        None => default,
    }
}

/// The thermal configuration as the web UI reads it back.
pub open spec fn thermal_report(ps: Seq<(Seq<char>, Seq<char>)>) -> Seq<char> {
    "thermal_discharging_normal="@ + value_or(ps, "thermal.discharging_normal"@, "1"@) + "\n"@
        + "thermal_discharging_low="@ + value_or(ps, "thermal.discharging_low"@, "2"@) + "\n"@
        + "thermal_discharging_critical="@ + value_or(ps, "thermal.discharging_critical"@, "3"@)
        + "\n"@ + "thermal_critical_level="@ + value_or(ps, "thermal.critical_level"@, "20"@) + "\n"@
}

pub fn thermal_report_text(entries: &Vec<(String, String)>) -> (r: String)
    ensures
        r@ == thermal_report(pairs(entries@)),
{
    let mut r = String::from_str("thermal_discharging_normal=");
    r.append(config_value(entries, "thermal.discharging_normal", "1").as_str());
    r.append("\nthermal_discharging_low=");
    r.append(config_value(entries, "thermal.discharging_low", "2").as_str());
    r.append("\nthermal_discharging_critical=");
    r.append(config_value(entries, "thermal.discharging_critical", "3").as_str());
    r.append("\nthermal_critical_level=");
    r.append(config_value(entries, "thermal.critical_level", "20").as_str());
    r.append("\n");
    proof {
        reveal_strlit("thermal_discharging_normal=");
        reveal_strlit("\nthermal_discharging_low=");
        reveal_strlit("\nthermal_discharging_critical=");
        reveal_strlit("\nthermal_critical_level=");
        reveal_strlit("\n");
        reveal_strlit("thermal_discharging_low=");
        reveal_strlit("thermal_discharging_critical=");
        reveal_strlit("thermal_critical_level=");
    }
    assert(r@ =~= thermal_report(pairs(entries@)));
    r
}

proof fn lemma_marker_literals(marker: Seq<char>)
    requires
        marker_key(marker) is Some,
    ensures
        match marker_key(marker) {
            Some((key, on)) => clean_key(key) && clean_value(on) && clean_value(marker_off(marker))
                && on != marker_off(marker),
            None => false,
        },
{
    reveal_strlit("drain.enabled");
    reveal_strlit("sensors.enabled");
    reveal_strlit("airplane.enabled");
    reveal_strlit("logging.enabled");
    reveal_strlit("compaction.enabled");
    reveal_strlit("battery.screen_timeout_low_ms");
    reveal_strlit("notification.enabled");
    reveal_strlit("battery.dnd_while_charging");
    reveal_strlit("watchdog.enabled");
    reveal_strlit("watchdog.jobscheduler");
    reveal_strlit("thermal.enabled");
    reveal_strlit("battery.background_process_limit_low");
    reveal_strlit("battery.refresh_rate_low");
    reveal_strlit("battery.samsung_restricted_performance");
    reveal_strlit("true");
    reveal_strlit("72000");
    reveal_strlit("3");
    reveal_strlit("60.0");
    reveal_strlit("false");
    reveal_strlit("");
    let on = marker_key(marker).unwrap().1;
    assert(on == "true"@ || on == "72000"@ || on == "3"@ || on == "60.0"@);
    assert("true"@.len() == 4 && "false"@.len() == 5 && ""@.len() == 0);
    assert("72000"@.len() == 5 && "72000"@[0] != "false"@[0]);
    assert("3"@.len() == 1 && "60.0"@.len() == 4);
    assert(clean_value("true"@));
    assert(clean_value("72000"@));
    assert(clean_value("3"@));
    assert(clean_value("60.0"@));
    assert(clean_value("false"@) && clean_value(""@));
}

/// Touching a marker file through the bridge turns its setting on, and
/// removing it turns it off: the marker test that reads the rewritten
/// configuration back answers `1` after a touch and `0` after a removal.
pub proof fn lemma_marker_set_then_test(text: Seq<char>, marker: Seq<char>, on: bool)
    requires
        marker_key(marker) is Some,
    ensures
        marker_is_enabled(
            config_pairs(split_lines(updated_config(text, marker_change(marker, on)->0))),
            marker,
        ) == on,
        marker_answer(
            config_pairs(split_lines(updated_config(text, marker_change(marker, on)->0))),
            marker,
        ) == if on {
            "1\n"@
        } else {
            "0\n"@
        },
{
    lemma_marker_literals(marker);
    let ups = marker_change(marker, on)->0;
    assert(distinct_keys(ups));
    assert(clean_updates(ups));
    lemma_update_then_read(text, ups, 0);
}

proof fn lemma_thermal_keys()
    ensures
        clean_key("thermal.critical_level"@),
        clean_key("thermal.discharging_critical"@),
        clean_key("thermal.discharging_low"@),
        clean_key("thermal.discharging_normal"@),
        clean_key("thermal.enabled"@),
        clean_value("true"@),
        "thermal.critical_level"@ != "thermal.discharging_critical"@,
        "thermal.critical_level"@ != "thermal.discharging_low"@,
        "thermal.critical_level"@ != "thermal.discharging_normal"@,
        "thermal.critical_level"@ != "thermal.enabled"@,
        "thermal.discharging_critical"@ != "thermal.discharging_low"@,
        "thermal.discharging_critical"@ != "thermal.discharging_normal"@,
        "thermal.discharging_critical"@ != "thermal.enabled"@,
        "thermal.discharging_low"@ != "thermal.discharging_normal"@,
        "thermal.discharging_low"@ != "thermal.enabled"@,
        "thermal.discharging_normal"@ != "thermal.enabled"@,
{
    reveal_strlit("thermal.critical_level");
    reveal_strlit("thermal.discharging_critical");
    reveal_strlit("thermal.discharging_low");
    reveal_strlit("thermal.discharging_normal");
    reveal_strlit("thermal.enabled");
    reveal_strlit("true");
    assert("thermal.critical_level"@[8] != "thermal.discharging_critical"@[8]);
    assert("thermal.critical_level"@[8] != "thermal.discharging_low"@[8]);
    assert("thermal.critical_level"@[8] != "thermal.discharging_normal"@[8]);
    assert("thermal.critical_level"@[8] != "thermal.enabled"@[8]);
    assert("thermal.discharging_critical"@[20] != "thermal.discharging_low"@[20]);
    assert("thermal.discharging_critical"@[20] != "thermal.discharging_normal"@[20]);
    assert("thermal.discharging_critical"@[8] != "thermal.enabled"@[8]);
    assert("thermal.discharging_low"@[20] != "thermal.discharging_normal"@[20]);
    assert("thermal.discharging_low"@[8] != "thermal.enabled"@[8]);
    assert("thermal.discharging_normal"@[8] != "thermal.enabled"@[8]);
}

/// An assigned value that reads back as written.
pub open spec fn clean_assignment(values: Seq<Seq<char>>, name: Seq<char>) -> bool {
    last_assignment(values, name) matches Some(x) ==> clean_value(x)
}

/// The thermal levels that the page writes with its `printf` are the ones
/// that it reads back: after the thermal update, every level that the
/// values assign (where it reads back as written) has that value, and
/// thermal management is on.
pub proof fn lemma_thermal_write_then_read(text: Seq<char>, values: Seq<Seq<char>>)
    requires
        clean_assignment(values, "thermal_critical_level"@),
        clean_assignment(values, "thermal_discharging_critical"@),
        clean_assignment(values, "thermal_discharging_low"@),
        clean_assignment(values, "thermal_discharging_normal"@),
    ensures
        ({
            let after = config_pairs(split_lines(updated_config(text, thermal_change(values))));
            &&& pair_lookup(after, "thermal.enabled"@) == Some("true"@)
            &&& last_assignment(values, "thermal_critical_level"@) matches Some(x) ==> pair_lookup(
                after,
                "thermal.critical_level"@,
            ) == Some(x)
            &&& last_assignment(values, "thermal_discharging_critical"@) matches Some(x) ==> pair_lookup(
                after,
                "thermal.discharging_critical"@,
            ) == Some(x)
            &&& last_assignment(values, "thermal_discharging_low"@) matches Some(x) ==> pair_lookup(
                after,
                "thermal.discharging_low"@,
            ) == Some(x)
            &&& last_assignment(values, "thermal_discharging_normal"@) matches Some(x) ==> pair_lookup(
                after,
                "thermal.discharging_normal"@,
            ) == Some(x)
        }),
{
    lemma_thermal_keys();
    let a = opt_setting("thermal.critical_level"@, last_assignment(values, "thermal_critical_level"@));
    let b = opt_setting(
        "thermal.discharging_critical"@,
        last_assignment(values, "thermal_discharging_critical"@),
    );
    let c = opt_setting("thermal.discharging_low"@, last_assignment(values, "thermal_discharging_low"@));
    let d = opt_setting(
        "thermal.discharging_normal"@,
        last_assignment(values, "thermal_discharging_normal"@),
    );
    let e = seq![("thermal.enabled"@, "true"@)];
    let ups = thermal_change(values);
    assert(ups == a + b + c + d + e);
    let na = a.len() as int;
    let nb = b.len() as int;
    let nc = c.len() as int;
    let nd = d.len() as int;
    // Which of the thermal settings each position holds.
    let key_at = |x: int|
        if x < na {
            "thermal.critical_level"@
        } else if x < na + nb {
            "thermal.discharging_critical"@
        } else if x < na + nb + nc {
            "thermal.discharging_low"@
        } else if x < na + nb + nc + nd {
            "thermal.discharging_normal"@
        } else {
            "thermal.enabled"@
        };
    assert forall|x: int| 0 <= x < ups.len() implies (#[trigger] ups[x]).0 == key_at(x) && clean_key(
        ups[x].0,
    ) && clean_value(ups[x].1) by {
        if x < na {
            assert(ups[x] == a[x]);
        } else if x < na + nb {
            assert(ups[x] == b[x - na]);
        } else if x < na + nb + nc {
            assert(ups[x] == c[x - na - nb]);
        } else if x < na + nb + nc + nd {
            assert(ups[x] == d[x - na - nb - nc]);
        } else {
            assert(ups[x] == e[x - na - nb - nc - nd]);
        }
    }
    assert(distinct_keys(ups)) by {
        assert forall|x: int, y: int| 0 <= x < ups.len() && 0 <= y < ups.len() && x != y implies ups[x].0
            != ups[y].0 by {
            assert(ups[x].0 == key_at(x));
            assert(ups[y].0 == key_at(y));
        }
    }
    assert(clean_updates(ups));
    let n = ups.len() as int;
    assert(ups[n - 1] == e[0]);
    lemma_update_then_read(text, ups, n - 1);
    if na == 1 {
        assert(ups[0] == a[0]);
        lemma_update_then_read(text, ups, 0);
    }
    if nb == 1 {
        assert(ups[na] == b[0]);
        lemma_update_then_read(text, ups, na);
    }
    if nc == 1 {
        assert(ups[na + nb] == c[0]);
        lemma_update_then_read(text, ups, na + nb);
    }
    if nd == 1 {
        assert(ups[na + nb + nc] == d[0]);
        lemma_update_then_read(text, ups, na + nb + nc);
    }
}

/// What a marker test answers: `1` where the marker's setting is on.
pub open spec fn marker_answer(ps: Seq<(Seq<char>, Seq<char>)>, marker: Seq<char>) -> Seq<char> {
    if marker_is_enabled(ps, marker) {
        "1\n"@
    } else {
        "0\n"@
    }
}

pub fn marker_answer_text(entries: &Vec<(String, String)>, marker: &str) -> (r: String)
    ensures
        r@ == marker_answer(pairs(entries@), marker@),
{
    if marker_enabled(entries, marker) {
        String::from_str("1\n")
    } else {
        String::from_str("0\n")
    }
}

/// The words of `s` after `cur`, the word being read: the runs of
/// characters between whitespace.
pub open spec fn words_after(s: Seq<char>, cur: Seq<char>) -> Seq<Seq<char>>
    decreases s.len(),
{
    let done = if cur.len() > 0 {
        seq![cur]
    } else {
        Seq::<Seq<char>>::empty()
    };
    if s.len() == 0 {
        done
    } else if crate::text::is_ws(s[0]) {
        done + words_after(s.subrange(1, s.len() as int), Seq::empty())
    } else {
        words_after(s.subrange(1, s.len() as int), cur.push(s[0]))
    }
}

/// The whitespace-separated words of `s`.
pub open spec fn words(s: Seq<char>) -> Seq<Seq<char>> {
    words_after(s, Seq::empty())
}

/// The words of `text`, as `words` states them.
pub fn words_of(text: &str) -> (r: Vec<String>)
    ensures
        texts(r@) == words(text@),
{
    let v = chars_of(text);
    let mut r: Vec<String> = Vec::new();
    let mut cur = String::new();
    let mut pos: usize = 0;
    assert(v@.subrange(0, v.len() as int) =~= v@);
    while pos < v.len()
        invariant
            pos <= v.len(),
            v@ == text@,
            texts(r@) + words_after(v@.subrange(pos as int, v.len() as int), cur@) == words(text@),
        decreases v.len() - pos,
    {
        let ghost s = v@.subrange(pos as int, v.len() as int);
        assert(s.subrange(1, s.len() as int) =~= v@.subrange(pos + 1, v.len() as int));
        let ghost before = texts(r@);
        if crate::text::is_whitespace(v[pos]) {
            if cur.unicode_len() > 0 {
                r.push(cur);
                assert(texts(r@) =~= before + seq![texts(r@).last()]);
            }
            cur = String::new();
        } else {
            let mut w = String::new();
            w.append(cur.as_str());
            w.push(v[pos]);
            cur = w;
        }
        pos = pos + 1;
    }
    if cur.unicode_len() > 0 {
        let ghost before = texts(r@);
        r.push(cur);
        assert(texts(r@) =~= before + seq![texts(r@).last()]);
    }
    assert(texts(r@) =~= words(text@));
    r
}

/// What the web UI bridge answers itself, without a shell.
#[derive(Clone, Debug, PartialEq, Eq)]
pub enum BridgeRequest {
    /// Read a system property.
    GetProp(String),
    /// Set a system property to a value.
    SetProp(String, String),
    /// Whether a marker's setting is on.
    MarkerQuery(String),
    /// Turn a marker's setting on or off.
    MarkerSet(String, bool),
    /// Read the thermal configuration.
    ThermalRead,
    /// Apply these thermal settings.
    ThermalWrite(Vec<(String, String)>),
    /// Left to the shell.
    Unhandled,
}

pub enum BridgeView {
    GetProp(Seq<char>),
    SetProp(Seq<char>, Seq<char>),
    MarkerQuery(Seq<char>),
    MarkerSet(Seq<char>, bool),
    ThermalRead,
    ThermalWrite(Seq<(Seq<char>, Seq<char>)>),
    Unhandled,
}

impl View for BridgeRequest {
    type V = BridgeView;

    open spec fn view(&self) -> BridgeView {
        match self {
            BridgeRequest::GetProp(p) => BridgeView::GetProp(p@),
            BridgeRequest::SetProp(p, v) => BridgeView::SetProp(p@, v@),
            BridgeRequest::MarkerQuery(m) => BridgeView::MarkerQuery(m@),
            BridgeRequest::MarkerSet(m, on) => BridgeView::MarkerSet(m@, *on),
            BridgeRequest::ThermalRead => BridgeView::ThermalRead,
            BridgeRequest::ThermalWrite(u) => BridgeView::ThermalWrite(pairs(u@)),
            BridgeRequest::Unhandled => BridgeView::Unhandled,
        }
    }
}

pub open spec fn thermal_read_command() -> Seq<char> {
    "cat /data/local/tmp/utensil/thermalconfiguration 2>/dev/null || echo \"\""@
}

pub open spec fn has_prefix(s: Seq<char>, p: Seq<char>) -> bool {
    s.len() >= p.len() && s.subrange(0, p.len() as int) == p
}

pub open spec fn has_suffix(s: Seq<char>, p: Seq<char>) -> bool {
    s.len() >= p.len() && s.subrange(s.len() - p.len(), s.len() as int) == p
}

/// A marker request, where `found` names a marker that stands for a setting.
pub open spec fn marker_request(found: Option<Seq<char>>, query: bool, on: bool) -> Option<BridgeView> {
    match found {
        Some(m) => Some(
            if marker_key(m) is Some {
                if query {
                    BridgeView::MarkerQuery(m)
                } else {
                    BridgeView::MarkerSet(m, on)
                }
            } else {
                BridgeView::Unhandled
            },
        ),
        None => None,
    }
}

/// What the bridge does with `command`, checked in this order: a property
/// read, a property write of exactly two words, a marker test, touch or
/// removal (left to the shell where the marker stands for no setting), the
/// thermal read, the thermal `printf`; anything else goes to the shell.
pub open spec fn bridge_request(command: Seq<char>) -> BridgeView {
    if has_prefix(command, "getprop "@) {
        BridgeView::GetProp(trim(command.subrange(8, command.len() as int)))
    } else if has_prefix(command, "setprop "@) && words(command.subrange(8, command.len() as int)).len()
        == 2 {
        let w = words(command.subrange(8, command.len() as int));
        BridgeView::SetProp(w[0], w[1])
    } else if marker_request(
        marker_between(command, "[ -f \"/data/local/tmp/utensil/"@, "\" ] && echo 1 || echo 0"@),
        true,
        false,
    ) is Some {
        marker_request(
            marker_between(command, "[ -f \"/data/local/tmp/utensil/"@, "\" ] && echo 1 || echo 0"@),
            true,
            false,
        )->0
    } else if marker_request(marker_between(command, "touch /data/local/tmp/utensil/"@, ""@), false, true)
        is Some {
        marker_request(marker_between(command, "touch /data/local/tmp/utensil/"@, ""@), false, true)->0
    } else if marker_request(marker_between(command, "rm -f /data/local/tmp/utensil/"@, ""@), false, false)
        is Some {
        marker_request(marker_between(command, "rm -f /data/local/tmp/utensil/"@, ""@), false, false)->0
    } else if command == thermal_read_command() {
        BridgeView::ThermalRead
    } else if has_prefix(command, "printf '%s\\n' "@) && has_suffix(
        command,
        " > /data/local/tmp/utensil/thermalconfiguration"@,
    ) {
        BridgeView::ThermalWrite(thermal_change(printf_values(command)))
    } else {
        BridgeView::Unhandled
    }
}

fn marker_request_of(found: Option<String>, query: bool, on: bool) -> (r: Option<BridgeRequest>)
    ensures
        match r {
            Some(b) => marker_request(crate::config::opt_text(found), query, on) == Some(b@),
            None => marker_request(crate::config::opt_text(found), query, on) is None,
        },
{
    match found {
        Some(m) => {
            if marker_config_key(m.as_str()).is_some() {
                if query {
                    Some(BridgeRequest::MarkerQuery(m))
                } else {
                    Some(BridgeRequest::MarkerSet(m, on))
                }
            } else {
                Some(BridgeRequest::Unhandled)
            }
        },
        None => None,
    }
}

/// What the bridge does with `command`, as `bridge_request` states it.
pub fn classify_bridge_command(command: &str) -> (r: BridgeRequest)
    ensures
        r@ == bridge_request(command@),
{
    let v = chars_of(command);
    assert(v@.subrange(0, v.len() as int) =~= command@);
    proof {
        reveal_strlit("getprop ");
        reveal_strlit("setprop ");
    }
    if range_starts_with(&v, 0, v.len(), "getprop ") {
        assert(v@.subrange(0, 0int + "getprop "@.len()) =~= command@.subrange(0, 8));
        let (a, b) = trim_range(&v, 8, v.len());
        assert(v@.subrange(8, v.len() as int) =~= command@.subrange(8, command@.len() as int));
        return BridgeRequest::GetProp(substring(command, a, b));
    }
    assert(!has_prefix(command@, "getprop "@)) by {
        if has_prefix(command@, "getprop "@) {
            assert(v@.subrange(0, 0int + "getprop "@.len()) =~= command@.subrange(0, 8));
        }
    }
    if range_starts_with(&v, 0, v.len(), "setprop ") {
        assert(v@.subrange(0, 0int + "setprop "@.len()) =~= command@.subrange(0, 8));
        let rest = substring(command, 8, v.len());
        let w = words_of(rest.as_str());
        if w.len() == 2 {
            return BridgeRequest::SetProp(w[0].clone(), w[1].clone());
        }
    } else {
        assert(!has_prefix(command@, "setprop "@)) by {
            if has_prefix(command@, "setprop "@) {
                assert(v@.subrange(0, 0int + "setprop "@.len()) =~= command@.subrange(0, 8));
            }
        }
    }
    match marker_request_of(parse_marker_exists(command), true, false) {
        Some(b) => return b,
        None => {},
    }
    match marker_request_of(parse_touch_marker(command), false, true) {
        Some(b) => return b,
        None => {},
    }
    match marker_request_of(parse_rm_marker(command), false, false) {
        Some(b) => return b,
        None => {},
    }
    let cat = "cat /data/local/tmp/utensil/thermalconfiguration 2>/dev/null || echo \"\"";
    if range_eq(&v, 0, v.len(), cat) {
        return BridgeRequest::ThermalRead;
    }
    let pre = "printf '%s\\n' ";
    let suf = " > /data/local/tmp/utensil/thermalconfiguration";
    if range_starts_with(&v, 0, v.len(), pre) && range_ends_with(&v, 0, v.len(), suf) {
        assert(v@.subrange(0, 0int + pre@.len()) =~= command@.subrange(0, pre@.len() as int));
        assert(v@.subrange(v.len() - suf@.len(), v.len() as int) =~= command@.subrange(command@.len() - suf@.len(), command@.len() as int));
        let values = parse_printf_values(command);
        return BridgeRequest::ThermalWrite(thermal_updates(&values));
    }
    assert(!(has_prefix(command@, pre@) && has_suffix(command@, suf@))) by {
        if has_prefix(command@, pre@) && has_suffix(command@, suf@) {
            assert(v@.subrange(0, 0int + pre@.len()) =~= command@.subrange(0, pre@.len() as int));
            assert(v@.subrange(v.len() - suf@.len(), v.len() as int) =~= command@.subrange(command@.len() - suf@.len(), command@.len() as int));
        }
    }
    BridgeRequest::Unhandled
}

/// The reason phrase sent with a status code.
pub open spec fn reason(status: u16) -> Seq<char> {
    if status == 200 {
        "OK"@
    } else if status == 404 {
        "Not Found"@
    } else if status == 500 {
        "Internal Server Error"@
    } else if status == 413 {
        "Payload Too Large"@
    } else {
        "Error"@
    }
}

pub fn reason_phrase(status: u16) -> (r: &'static str)
    ensures
        r@ == reason(status),
{
    if status == 200 {
        "OK"
    } else if status == 404 {
        "Not Found"
    } else if status == 500 {
        "Internal Server Error"
    } else if status == 413 {
        "Payload Too Large"
    } else {
        "Error"
    }
}

/// The status line and headers of a response whose body is `body_len`
/// bytes long; the body follows them.
pub open spec fn response_head(status: u16, content_type: Seq<char>, body_len: nat) -> Seq<char> {
    "HTTP/1.1 "@ + crate::text::decimal(status as nat) + " "@ + reason(status) + "\r\nContent-Type: "@
        + content_type + "\r\nContent-Length: "@ + crate::text::decimal(body_len) + "\r\nConnection: close\r\n\r\n"@
}

pub fn response_head_text(status: u16, content_type: &str, body_len: usize) -> (r: String)
    ensures
        r@ == response_head(status, content_type@, body_len as nat),
{
    let mut r = String::from_str("HTTP/1.1 ");
    crate::text::push_decimal(&mut r, status as u64);
    r.append(" ");
    r.append(reason_phrase(status));
    r.append("\r\nContent-Type: ");
    r.append(content_type);
    r.append("\r\nContent-Length: ");
    crate::text::push_decimal(&mut r, body_len as u64);
    r.append("\r\nConnection: close\r\n\r\n");
    r
}

/// Where a request goes.
#[derive(PartialEq, Eq, Structural, Clone, Copy, Debug)]
pub enum Route {
    /// The page itself.
    Index,
    /// The liveness check.
    Health,
    /// The shell bridge.
    Exec,
    /// Anything else.
    NotFound,
}

pub open spec fn route_of(method: Seq<char>, path: Seq<char>) -> Route {
    if method == "GET"@ && (path == "/"@ || path == "/index.html"@) {
        Route::Index
    } else if method == "GET"@ && path == "/health"@ {
        Route::Health
    } else if method == "POST"@ && path == "/api/exec"@ {
        Route::Exec
    } else {
        Route::NotFound
    }
}

fn text_is(s: &str, lit: &str) -> (b: bool)
    ensures
        b == (s@ == lit@),
{
    let v = chars_of(s);
    assert(v@.subrange(0, v.len() as int) =~= s@);
    range_eq(&v, 0, v.len(), lit)
}

pub fn route(method: &str, path: &str) -> (r: Route)
    ensures
        r == route_of(method@, path@),
{
    if text_is(method, "GET") && (text_is(path, "/") || text_is(path, "/index.html")) {
        Route::Index
    } else if text_is(method, "GET") && text_is(path, "/health") {
        Route::Health
    } else if text_is(method, "POST") && text_is(path, "/api/exec") {
        Route::Exec
    } else {
        Route::NotFound
    }
}

/// Where the first blank line (`\r\n\r\n`) of `b` ends, if it has one.
pub open spec fn blank_line_end(b: Seq<u8>) -> Option<nat>
    decreases b.len(),
{
    if b.len() < 4 {
        None
    } else if b[0] == 13 && b[1] == 10 && b[2] == 13 && b[3] == 10 {
        Some(4)
    } else {
        match blank_line_end(b.subrange(1, b.len() as int)) {
            Some(n) => Some(n + 1),
            None => None,
        }
    }
}

/// Where the head of a request ends, as `blank_line_end` states it.
pub fn head_end(buffer: &Vec<u8>) -> (r: Option<usize>)
    ensures
        match r {
            Some(n) => blank_line_end(buffer@) == Some(n as nat),
            None => blank_line_end(buffer@) is None,
        },
{
    let mut i: usize = 0;
    assert(buffer@.subrange(0, buffer.len() as int) =~= buffer@);
    while buffer.len() >= 4 && i <= buffer.len() - 4
        invariant
            i <= buffer.len(),
            blank_line_end(buffer@) == match blank_line_end(buffer@.subrange(i as int, buffer.len() as int)) {
                Some(n) => Some((n + i) as nat),
                None => None,
            },
        decreases buffer.len() - i,
    {
        let ghost s = buffer@.subrange(i as int, buffer.len() as int);
        if buffer[i] == 13 && buffer[i + 1] == 10 && buffer[i + 2] == 13 && buffer[i + 3] == 10 {
            return Some(i + 4);
        }
        assert(s.subrange(1, s.len() as int) =~= buffer@.subrange(i + 1, buffer.len() as int));
        i = i + 1;
    }
    None
}

/// The text after `p` in the first of `lines` that starts with it.
pub open spec fn first_after_prefix(lines: Seq<Seq<char>>, p: Seq<char>) -> Option<Seq<char>>
    decreases lines.len(),
{
    if lines.len() == 0 {
        None
    } else if has_prefix(lines[0], p) {
        Some(lines[0].subrange(p.len() as int, lines[0].len() as int))
    } else {
        first_after_prefix(lines.subrange(1, lines.len() as int), p)
    }
}

/// The method, path and body length of a request head.
#[derive(Clone, Debug, PartialEq, Eq)]
pub struct RequestHead {
    pub method: String,
    pub path: String,
    pub content_length: usize,
}

/// The first line's first two words (`""` and `/` where missing), and the
/// length that the first `Content-Length:` header gives, 0 where there is
/// none or it is not a number.
pub open spec fn request_method(request: Seq<char>) -> Seq<char> {
    let ls = text_lines(request);
    let w = words(if ls.len() > 0 { ls[0] } else { Seq::empty() });
    if w.len() > 0 { w[0] } else { Seq::empty() }
}

pub open spec fn request_path(request: Seq<char>) -> Seq<char> {
    let ls = text_lines(request);
    let w = words(if ls.len() > 0 { ls[0] } else { Seq::empty() });
    if w.len() > 1 { w[1] } else { "/"@ }
}

pub open spec fn request_length(request: Seq<char>) -> nat {
    match first_after_prefix(text_lines(request), "Content-Length:"@) {
        Some(v) => match crate::text::parse_unsigned(trim(v), usize::MAX as nat) {
            Some(n) => n,
            None => 0,
        },
        None => 0,
    }
}

fn first_after(lines: &Vec<String>, p: &str) -> (r: Option<String>)
    ensures
        crate::config::opt_text(r) == first_after_prefix(texts(lines@), p@),
{
    let ghost ls = texts(lines@);
    let mut i: usize = 0;
    assert(ls.subrange(0, ls.len() as int) =~= ls);
    while i < lines.len()
        invariant
            i <= lines.len(),
            ls == texts(lines@),
            first_after_prefix(ls, p@) == first_after_prefix(ls.subrange(i as int, ls.len() as int), p@),
        decreases lines.len() - i,
    {
        let ghost s = ls.subrange(i as int, ls.len() as int);
        assert(s[0] == lines@[i as int]@);
        assert(s.subrange(1, s.len() as int) =~= ls.subrange(i + 1, ls.len() as int));
        let v = chars_of(lines[i].as_str());
        assert(v@.subrange(0, v.len() as int) =~= v@);
        if range_starts_with(&v, 0, v.len(), p) {
            assert(v@.subrange(0, 0int + p@.len()) =~= v@.subrange(0, p@.len() as int));
            return Some(substring(lines[i].as_str(), p.unicode_len(), v.len()));
        }
        assert(!has_prefix(v@, p@)) by {
            if has_prefix(v@, p@) {
                assert(v@.subrange(0, 0int + p@.len()) =~= v@.subrange(0, p@.len() as int));
            }
        }
        i = i + 1;
    }
    None
}

/// The head of `request`, as the `request_*` functions state it.
pub fn request_head(request: &str) -> (r: RequestHead)
    ensures
        r.method@ == request_method(request@),
        r.path@ == request_path(request@),
        r.content_length == request_length(request@),
{
    let lines = lines_of(request);
    let w = if lines.len() > 0 {
        words_of(lines[0].as_str())
    } else {
        words_of("")
    };
    proof {
        reveal_strlit("");
        if lines.len() > 0 {
            assert(texts(lines@)[0] == lines@[0]@);
        }
    }
    let method = if w.len() > 0 {
        w[0].clone()
    } else {
        String::new()
    };
    let path = if w.len() > 1 {
        w[1].clone()
    } else {
        String::from_str("/")
    };
    let content_length = match first_after(&lines, "Content-Length:") {
        Some(v) => {
            let c = chars_of(v.as_str());
            let (a, b) = trim_range(&c, 0, c.len());
            assert(c@.subrange(0, c.len() as int) =~= c@);
            match crate::text::parse_unsigned_range(&c, a, b, usize::MAX as u64) {
                Some(n) => n as usize,
                None => 0,
            }
        },
        None => 0,
    };
    RequestHead { method, path, content_length }
}

/// Where the bridge listens and where its page lives.
#[derive(Clone, Debug, PartialEq, Eq)]
pub struct WebArgs {
    pub listen: String,
    pub webroot: String,
}

/// The options after the program name, read in order from `listen` and
/// `webroot`: `--listen <address>`, `--webroot <dir>`; a missing value or
/// any other word is an error.
pub open spec fn web_args_from(args: Seq<Seq<char>>, listen: Seq<char>, webroot: Seq<char>) -> Result<
    (Seq<char>, Seq<char>),
    Seq<char>,
>
    decreases args.len(),
{
    if args.len() == 0 {
        Ok((listen, webroot))
    } else if args[0] == "--listen"@ {
        if args.len() < 2 {
            Err("missing --listen value"@)
        } else {
            web_args_from(args.subrange(2, args.len() as int), args[1], webroot)
        }
    } else if args[0] == "--webroot"@ {
        if args.len() < 2 {
            Err("missing --webroot value"@)
        } else {
            web_args_from(args.subrange(2, args.len() as int), listen, args[1])
        }
    } else {
        Err("unknown argument `"@ + args[0] + "`"@)
    }
}

/// The bridge's options, from the defaults `127.0.0.1:8787` and
/// `/system/etc/utensil/webroot`.
pub open spec fn web_args(args: Seq<Seq<char>>) -> Result<(Seq<char>, Seq<char>), Seq<char>> {
    web_args_from(args, "127.0.0.1:8787"@, "/system/etc/utensil/webroot"@)
}

/// The bridge's options, as `web_args` states them.
pub fn parse_web_args(args: &Vec<String>) -> (r: Result<WebArgs, String>)
    ensures
        match r {
            Ok(a) => web_args(texts(args@)) == Ok::<(Seq<char>, Seq<char>), Seq<char>>((a.listen@, a.webroot@)),
            Err(m) => web_args(texts(args@)) == Err::<(Seq<char>, Seq<char>), Seq<char>>(m@),
        },
{
    let ghost all = texts(args@);
    let mut listen = String::from_str("127.0.0.1:8787");
    let mut webroot = String::from_str("/system/etc/utensil/webroot");
    let mut i: usize = 0;
    assert(all.subrange(0, all.len() as int) =~= all);
    while i < args.len()
        invariant
            i <= args.len(),
            all == texts(args@),
            web_args(all) == web_args_from(all.subrange(i as int, all.len() as int), listen@, webroot@),
        decreases args.len() - i,
    {
        let ghost rest = all.subrange(i as int, all.len() as int);
        assert(rest[0] == args@[i as int]@);
        if text_is(args[i].as_str(), "--listen") {
            if i + 1 >= args.len() {
                return Err(String::from_str("missing --listen value"));
            }
            assert(rest[1] == args@[i + 1]@);
            assert(rest.subrange(2, rest.len() as int) =~= all.subrange(i + 2, all.len() as int));
            listen = args[i + 1].clone();
            i = i + 2;
        } else if text_is(args[i].as_str(), "--webroot") {
            if i + 1 >= args.len() {
                return Err(String::from_str("missing --webroot value"));
            }
            assert(rest[1] == args@[i + 1]@);
            assert(rest.subrange(2, rest.len() as int) =~= all.subrange(i + 2, all.len() as int));
            webroot = args[i + 1].clone();
            i = i + 2;
        } else {
            let mut m = String::from_str("unknown argument `");
            m.append(args[i].as_str());
            m.append("`");
            return Err(m);
        }
    }
    Ok(WebArgs { listen, webroot })
}

/// The result of a bridged shell command.
#[derive(Clone, Debug, PartialEq, Eq)]
pub struct ExecResult {
    pub stdout: String,
    pub stderr: String,
    pub exit_code: i32,
}

impl ExecResult {
    /// A successful result that printed `stdout`.
    pub fn stdout(stdout: &str) -> (r: ExecResult)
        ensures
            r.stdout@ == stdout@,
            r.stderr@ == Seq::<char>::empty(),
            r.exit_code == 0,
    {
        ExecResult { stdout: String::from_str(stdout), stderr: String::new(), exit_code: 0 }
    }

    /// The result as the JSON object the page expects.
    pub fn to_json(&self) -> (r: String)
        ensures
            r@ == "{\"stdout\":\""@ + json_escaped(self.stdout@) + "\",\"stderr\":\""@ + json_escaped(
                self.stderr@,
            ) + "\",\"exitCode\":"@ + crate::text::signed_decimal(self.exit_code as int) + "}"@,
    {
        let mut r = String::from_str("{\"stdout\":\"");
        r.append(json_escape(self.stdout.as_str()).as_str());
        r.append("\",\"stderr\":\"");
        r.append(json_escape(self.stderr.as_str()).as_str());
        r.append("\",\"exitCode\":");
        r.append(crate::text::signed_decimal_string(self.exit_code).as_str());
        r.append("}");
        r
    }
}


/// Each marker file names its own setting: touching a marker turns on
/// exactly the setting listed for it, no two markers share a setting, and
/// a setting is reached from no other marker.
pub proof fn lemma_markers_name_their_settings()
    ensures
        marker_key("draincheck"@) == Some(("drain.enabled"@, "true"@)),
        marker_key("sensorconfiguration"@) == Some(("sensors.enabled"@, "true"@)),
        marker_key("airplaneconfiguration"@) == Some(("airplane.enabled"@, "true"@)),
        marker_key("charglogconfiguration"@) == Some(("logging.enabled"@, "true"@)),
        marker_key("compactionconfiguration"@) == Some(("compaction.enabled"@, "true"@)),
        marker_key("timeoutflag"@) == Some(("battery.screen_timeout_low_ms"@, "72000"@)),
        marker_key("notificationconfiguration"@) == Some(("notification.enabled"@, "true"@)),
        marker_key("dndconfiguration"@) == Some(("battery.dnd_while_charging"@, "true"@)),
        marker_key("watchdogconfiguration"@) == Some(("watchdog.enabled"@, "true"@)),
        marker_key("jobschedulerconfiguration"@) == Some(("watchdog.jobscheduler"@, "true"@)),
        marker_key("cmdthermal"@) == Some(("thermal.enabled"@, "true"@)),
        marker_key("bgapplimits"@) == Some(("battery.background_process_limit_low"@, "3"@)),
        marker_key("refreshrateconfig"@) == Some(("battery.refresh_rate_low"@, "60.0"@)),
        marker_key("restricteddeviceperformance"@) == Some(("battery.samsung_restricted_performance"@, "true"@)),
        forall|m: Seq<char>| #[trigger] marker_key(m) matches Some((key, on)) && key == "drain.enabled"@ ==> m == "draincheck"@,
        forall|m: Seq<char>| #[trigger] marker_key(m) matches Some((key, on)) && key == "sensors.enabled"@ ==> m == "sensorconfiguration"@,
        forall|m: Seq<char>| #[trigger] marker_key(m) matches Some((key, on)) && key == "airplane.enabled"@ ==> m == "airplaneconfiguration"@,
        forall|m: Seq<char>| #[trigger] marker_key(m) matches Some((key, on)) && key == "logging.enabled"@ ==> m == "charglogconfiguration"@,
        forall|m: Seq<char>| #[trigger] marker_key(m) matches Some((key, on)) && key == "compaction.enabled"@ ==> m == "compactionconfiguration"@,
        forall|m: Seq<char>| #[trigger] marker_key(m) matches Some((key, on)) && key == "battery.screen_timeout_low_ms"@ ==> m == "timeoutflag"@,
        forall|m: Seq<char>| #[trigger] marker_key(m) matches Some((key, on)) && key == "notification.enabled"@ ==> m == "notificationconfiguration"@,
        forall|m: Seq<char>| #[trigger] marker_key(m) matches Some((key, on)) && key == "battery.dnd_while_charging"@ ==> m == "dndconfiguration"@,
        forall|m: Seq<char>| #[trigger] marker_key(m) matches Some((key, on)) && key == "watchdog.enabled"@ ==> m == "watchdogconfiguration"@,
        forall|m: Seq<char>| #[trigger] marker_key(m) matches Some((key, on)) && key == "watchdog.jobscheduler"@ ==> m == "jobschedulerconfiguration"@,
        forall|m: Seq<char>| #[trigger] marker_key(m) matches Some((key, on)) && key == "thermal.enabled"@ ==> m == "cmdthermal"@,
        forall|m: Seq<char>| #[trigger] marker_key(m) matches Some((key, on)) && key == "battery.background_process_limit_low"@ ==> m == "bgapplimits"@,
        forall|m: Seq<char>| #[trigger] marker_key(m) matches Some((key, on)) && key == "battery.refresh_rate_low"@ ==> m == "refreshrateconfig"@,
        forall|m: Seq<char>| #[trigger] marker_key(m) matches Some((key, on)) && key == "battery.samsung_restricted_performance"@ ==> m == "restricteddeviceperformance"@,
        forall|a: Seq<char>, b: Seq<char>| #[trigger] marker_key(a) matches Some((ka, oa)) && #[trigger] marker_key(b) matches Some((kb, ob)) && ka == kb ==> a == b,
{
    reveal_strlit("draincheck");
    reveal_strlit("sensorconfiguration");
    reveal_strlit("airplaneconfiguration");
    reveal_strlit("charglogconfiguration");
    reveal_strlit("compactionconfiguration");
    reveal_strlit("timeoutflag");
    reveal_strlit("notificationconfiguration");
    reveal_strlit("dndconfiguration");
    reveal_strlit("watchdogconfiguration");
    reveal_strlit("jobschedulerconfiguration");
    reveal_strlit("cmdthermal");
    reveal_strlit("bgapplimits");
    reveal_strlit("refreshrateconfig");
    reveal_strlit("restricteddeviceperformance");
    reveal_strlit("drain.enabled");
    reveal_strlit("sensors.enabled");
    reveal_strlit("airplane.enabled");
    reveal_strlit("logging.enabled");
    reveal_strlit("compaction.enabled");
    reveal_strlit("battery.screen_timeout_low_ms");
    reveal_strlit("notification.enabled");
    reveal_strlit("battery.dnd_while_charging");
    reveal_strlit("watchdog.enabled");
    reveal_strlit("watchdog.jobscheduler");
    reveal_strlit("thermal.enabled");
    reveal_strlit("battery.background_process_limit_low");
    reveal_strlit("battery.refresh_rate_low");
    reveal_strlit("battery.samsung_restricted_performance");
    reveal_strlit("3");
    reveal_strlit("60.0");
    reveal_strlit("72000");
    reveal_strlit("true");
    assert("sensorconfiguration"@.len() != "draincheck"@.len());
    assert("airplaneconfiguration"@.len() != "draincheck"@.len());
    assert("airplaneconfiguration"@.len() != "sensorconfiguration"@.len());
    assert("charglogconfiguration"@.len() != "draincheck"@.len());
    assert("charglogconfiguration"@.len() != "sensorconfiguration"@.len());
    assert("charglogconfiguration"@[0] != "airplaneconfiguration"@[0]);
    assert("compactionconfiguration"@.len() != "draincheck"@.len());
    assert("compactionconfiguration"@.len() != "sensorconfiguration"@.len());
    assert("compactionconfiguration"@.len() != "airplaneconfiguration"@.len());
    assert("compactionconfiguration"@.len() != "charglogconfiguration"@.len());
    assert("timeoutflag"@.len() != "draincheck"@.len());
    assert("timeoutflag"@.len() != "sensorconfiguration"@.len());
    assert("timeoutflag"@.len() != "airplaneconfiguration"@.len());
    assert("timeoutflag"@.len() != "charglogconfiguration"@.len());
    assert("timeoutflag"@.len() != "compactionconfiguration"@.len());
    assert("notificationconfiguration"@.len() != "draincheck"@.len());
    assert("notificationconfiguration"@.len() != "sensorconfiguration"@.len());
    assert("notificationconfiguration"@.len() != "airplaneconfiguration"@.len());
    assert("notificationconfiguration"@.len() != "charglogconfiguration"@.len());
    assert("notificationconfiguration"@.len() != "compactionconfiguration"@.len());
    assert("notificationconfiguration"@.len() != "timeoutflag"@.len());
    assert("dndconfiguration"@.len() != "draincheck"@.len());
    assert("dndconfiguration"@.len() != "sensorconfiguration"@.len());
    assert("dndconfiguration"@.len() != "airplaneconfiguration"@.len());
    assert("dndconfiguration"@.len() != "charglogconfiguration"@.len());
    assert("dndconfiguration"@.len() != "compactionconfiguration"@.len());
    assert("dndconfiguration"@.len() != "timeoutflag"@.len());
    assert("dndconfiguration"@.len() != "notificationconfiguration"@.len());
    assert("watchdogconfiguration"@.len() != "draincheck"@.len());
    assert("watchdogconfiguration"@.len() != "sensorconfiguration"@.len());
    assert("watchdogconfiguration"@[0] != "airplaneconfiguration"@[0]);
    assert("watchdogconfiguration"@[0] != "charglogconfiguration"@[0]);
    assert("watchdogconfiguration"@.len() != "compactionconfiguration"@.len());
    assert("watchdogconfiguration"@.len() != "timeoutflag"@.len());
    assert("watchdogconfiguration"@.len() != "notificationconfiguration"@.len());
    assert("watchdogconfiguration"@.len() != "dndconfiguration"@.len());
    assert("jobschedulerconfiguration"@.len() != "draincheck"@.len());
    assert("jobschedulerconfiguration"@.len() != "sensorconfiguration"@.len());
    assert("jobschedulerconfiguration"@.len() != "airplaneconfiguration"@.len());
    assert("jobschedulerconfiguration"@.len() != "charglogconfiguration"@.len());
    assert("jobschedulerconfiguration"@.len() != "compactionconfiguration"@.len());
    assert("jobschedulerconfiguration"@.len() != "timeoutflag"@.len());
    assert("jobschedulerconfiguration"@[0] != "notificationconfiguration"@[0]);
    assert("jobschedulerconfiguration"@.len() != "dndconfiguration"@.len());
    assert("jobschedulerconfiguration"@.len() != "watchdogconfiguration"@.len());
    assert("cmdthermal"@[0] != "draincheck"@[0]);
    assert("cmdthermal"@.len() != "sensorconfiguration"@.len());
    assert("cmdthermal"@.len() != "airplaneconfiguration"@.len());
    assert("cmdthermal"@.len() != "charglogconfiguration"@.len());
    assert("cmdthermal"@.len() != "compactionconfiguration"@.len());
    assert("cmdthermal"@.len() != "timeoutflag"@.len());
    assert("cmdthermal"@.len() != "notificationconfiguration"@.len());
    assert("cmdthermal"@.len() != "dndconfiguration"@.len());
    assert("cmdthermal"@.len() != "watchdogconfiguration"@.len());
    assert("cmdthermal"@.len() != "jobschedulerconfiguration"@.len());
    assert("bgapplimits"@.len() != "draincheck"@.len());
    assert("bgapplimits"@.len() != "sensorconfiguration"@.len());
    assert("bgapplimits"@.len() != "airplaneconfiguration"@.len());
    assert("bgapplimits"@.len() != "charglogconfiguration"@.len());
    assert("bgapplimits"@.len() != "compactionconfiguration"@.len());
    assert("bgapplimits"@[0] != "timeoutflag"@[0]);
    assert("bgapplimits"@.len() != "notificationconfiguration"@.len());
    assert("bgapplimits"@.len() != "dndconfiguration"@.len());
    assert("bgapplimits"@.len() != "watchdogconfiguration"@.len());
    assert("bgapplimits"@.len() != "jobschedulerconfiguration"@.len());
    assert("bgapplimits"@.len() != "cmdthermal"@.len());
    assert("refreshrateconfig"@.len() != "draincheck"@.len());
    assert("refreshrateconfig"@.len() != "sensorconfiguration"@.len());
    assert("refreshrateconfig"@.len() != "airplaneconfiguration"@.len());
    assert("refreshrateconfig"@.len() != "charglogconfiguration"@.len());
    assert("refreshrateconfig"@.len() != "compactionconfiguration"@.len());
    assert("refreshrateconfig"@.len() != "timeoutflag"@.len());
    assert("refreshrateconfig"@.len() != "notificationconfiguration"@.len());
    assert("refreshrateconfig"@.len() != "dndconfiguration"@.len());
    assert("refreshrateconfig"@.len() != "watchdogconfiguration"@.len());
    assert("refreshrateconfig"@.len() != "jobschedulerconfiguration"@.len());
    assert("refreshrateconfig"@.len() != "cmdthermal"@.len());
    assert("refreshrateconfig"@.len() != "bgapplimits"@.len());
    assert("restricteddeviceperformance"@.len() != "draincheck"@.len());
    assert("restricteddeviceperformance"@.len() != "sensorconfiguration"@.len());
    assert("restricteddeviceperformance"@.len() != "airplaneconfiguration"@.len());
    assert("restricteddeviceperformance"@.len() != "charglogconfiguration"@.len());
    assert("restricteddeviceperformance"@.len() != "compactionconfiguration"@.len());
    assert("restricteddeviceperformance"@.len() != "timeoutflag"@.len());
    assert("restricteddeviceperformance"@.len() != "notificationconfiguration"@.len());
    assert("restricteddeviceperformance"@.len() != "dndconfiguration"@.len());
    assert("restricteddeviceperformance"@.len() != "watchdogconfiguration"@.len());
    assert("restricteddeviceperformance"@.len() != "jobschedulerconfiguration"@.len());
    assert("restricteddeviceperformance"@.len() != "cmdthermal"@.len());
    assert("restricteddeviceperformance"@.len() != "bgapplimits"@.len());
    assert("restricteddeviceperformance"@.len() != "refreshrateconfig"@.len());
    assert("sensors.enabled"@.len() != "drain.enabled"@.len());
    assert("airplane.enabled"@.len() != "drain.enabled"@.len());
    assert("airplane.enabled"@.len() != "sensors.enabled"@.len());
    assert("logging.enabled"@.len() != "drain.enabled"@.len());
    assert("logging.enabled"@[0] != "sensors.enabled"@[0]);
    assert("logging.enabled"@.len() != "airplane.enabled"@.len());
    assert("compaction.enabled"@.len() != "drain.enabled"@.len());
    assert("compaction.enabled"@.len() != "sensors.enabled"@.len());
    assert("compaction.enabled"@.len() != "airplane.enabled"@.len());
    assert("compaction.enabled"@.len() != "logging.enabled"@.len());
    assert("battery.screen_timeout_low_ms"@.len() != "drain.enabled"@.len());
    assert("battery.screen_timeout_low_ms"@.len() != "sensors.enabled"@.len());
    assert("battery.screen_timeout_low_ms"@.len() != "airplane.enabled"@.len());
    assert("battery.screen_timeout_low_ms"@.len() != "logging.enabled"@.len());
    assert("battery.screen_timeout_low_ms"@.len() != "compaction.enabled"@.len());
    assert("notification.enabled"@.len() != "drain.enabled"@.len());
    assert("notification.enabled"@.len() != "sensors.enabled"@.len());
    assert("notification.enabled"@.len() != "airplane.enabled"@.len());
    assert("notification.enabled"@.len() != "logging.enabled"@.len());
    assert("notification.enabled"@.len() != "compaction.enabled"@.len());
    assert("notification.enabled"@.len() != "battery.screen_timeout_low_ms"@.len());
    assert("battery.dnd_while_charging"@.len() != "drain.enabled"@.len());
    assert("battery.dnd_while_charging"@.len() != "sensors.enabled"@.len());
    assert("battery.dnd_while_charging"@.len() != "airplane.enabled"@.len());
    assert("battery.dnd_while_charging"@.len() != "logging.enabled"@.len());
    assert("battery.dnd_while_charging"@.len() != "compaction.enabled"@.len());
    assert("battery.dnd_while_charging"@.len() != "battery.screen_timeout_low_ms"@.len());
    assert("battery.dnd_while_charging"@.len() != "notification.enabled"@.len());
    assert("watchdog.enabled"@.len() != "drain.enabled"@.len());
    assert("watchdog.enabled"@.len() != "sensors.enabled"@.len());
    assert("watchdog.enabled"@[0] != "airplane.enabled"@[0]);
    assert("watchdog.enabled"@.len() != "logging.enabled"@.len());
    assert("watchdog.enabled"@.len() != "compaction.enabled"@.len());
    assert("watchdog.enabled"@.len() != "battery.screen_timeout_low_ms"@.len());
    assert("watchdog.enabled"@.len() != "notification.enabled"@.len());
    assert("watchdog.enabled"@.len() != "battery.dnd_while_charging"@.len());
    assert("watchdog.jobscheduler"@.len() != "drain.enabled"@.len());
    assert("watchdog.jobscheduler"@.len() != "sensors.enabled"@.len());
    assert("watchdog.jobscheduler"@.len() != "airplane.enabled"@.len());
    assert("watchdog.jobscheduler"@.len() != "logging.enabled"@.len());
    assert("watchdog.jobscheduler"@.len() != "compaction.enabled"@.len());
    assert("watchdog.jobscheduler"@.len() != "battery.screen_timeout_low_ms"@.len());
    assert("watchdog.jobscheduler"@.len() != "notification.enabled"@.len());
    assert("watchdog.jobscheduler"@.len() != "battery.dnd_while_charging"@.len());
    assert("watchdog.jobscheduler"@.len() != "watchdog.enabled"@.len());
    assert("thermal.enabled"@.len() != "drain.enabled"@.len());
    assert("thermal.enabled"@[0] != "sensors.enabled"@[0]);
    assert("thermal.enabled"@.len() != "airplane.enabled"@.len());
    assert("thermal.enabled"@[0] != "logging.enabled"@[0]);
    assert("thermal.enabled"@.len() != "compaction.enabled"@.len());
    assert("thermal.enabled"@.len() != "battery.screen_timeout_low_ms"@.len());
    assert("thermal.enabled"@.len() != "notification.enabled"@.len());
    assert("thermal.enabled"@.len() != "battery.dnd_while_charging"@.len());
    assert("thermal.enabled"@.len() != "watchdog.enabled"@.len());
    assert("thermal.enabled"@.len() != "watchdog.jobscheduler"@.len());
    assert("battery.background_process_limit_low"@.len() != "drain.enabled"@.len());
    assert("battery.background_process_limit_low"@.len() != "sensors.enabled"@.len());
    assert("battery.background_process_limit_low"@.len() != "airplane.enabled"@.len());
    assert("battery.background_process_limit_low"@.len() != "logging.enabled"@.len());
    assert("battery.background_process_limit_low"@.len() != "compaction.enabled"@.len());
    assert("battery.background_process_limit_low"@.len() != "battery.screen_timeout_low_ms"@.len());
    assert("battery.background_process_limit_low"@.len() != "notification.enabled"@.len());
    assert("battery.background_process_limit_low"@.len() != "battery.dnd_while_charging"@.len());
    assert("battery.background_process_limit_low"@.len() != "watchdog.enabled"@.len());
    assert("battery.background_process_limit_low"@.len() != "watchdog.jobscheduler"@.len());
    assert("battery.background_process_limit_low"@.len() != "thermal.enabled"@.len());
    assert("battery.refresh_rate_low"@.len() != "drain.enabled"@.len());
    assert("battery.refresh_rate_low"@.len() != "sensors.enabled"@.len());
    assert("battery.refresh_rate_low"@.len() != "airplane.enabled"@.len());
    assert("battery.refresh_rate_low"@.len() != "logging.enabled"@.len());
    assert("battery.refresh_rate_low"@.len() != "compaction.enabled"@.len());
    assert("battery.refresh_rate_low"@.len() != "battery.screen_timeout_low_ms"@.len());
    assert("battery.refresh_rate_low"@.len() != "notification.enabled"@.len());
    assert("battery.refresh_rate_low"@.len() != "battery.dnd_while_charging"@.len());
    assert("battery.refresh_rate_low"@.len() != "watchdog.enabled"@.len());
    assert("battery.refresh_rate_low"@.len() != "watchdog.jobscheduler"@.len());
    assert("battery.refresh_rate_low"@.len() != "thermal.enabled"@.len());
    assert("battery.refresh_rate_low"@.len() != "battery.background_process_limit_low"@.len());
    assert("battery.samsung_restricted_performance"@.len() != "drain.enabled"@.len());
    assert("battery.samsung_restricted_performance"@.len() != "sensors.enabled"@.len());
    assert("battery.samsung_restricted_performance"@.len() != "airplane.enabled"@.len());
    assert("battery.samsung_restricted_performance"@.len() != "logging.enabled"@.len());
    assert("battery.samsung_restricted_performance"@.len() != "compaction.enabled"@.len());
    assert("battery.samsung_restricted_performance"@.len() != "battery.screen_timeout_low_ms"@.len());
    assert("battery.samsung_restricted_performance"@.len() != "notification.enabled"@.len());
    assert("battery.samsung_restricted_performance"@.len() != "battery.dnd_while_charging"@.len());
    assert("battery.samsung_restricted_performance"@.len() != "watchdog.enabled"@.len());
    assert("battery.samsung_restricted_performance"@.len() != "watchdog.jobscheduler"@.len());
    assert("battery.samsung_restricted_performance"@.len() != "thermal.enabled"@.len());
    assert("battery.samsung_restricted_performance"@.len() != "battery.background_process_limit_low"@.len());
    assert("battery.samsung_restricted_performance"@.len() != "battery.refresh_rate_low"@.len());
}

} // verus!
