//! The device-idle history: reading `dumpsys deviceidle` lines and laying
//! them out as a table.
use vstd::prelude::*;
use crate::text::{
    chars_of, decimal, find_char, find_str, find_text, is_digit, lemma_find_text_bounds,
    parse_unsigned, parse_unsigned_range, push_decimal, split_lines, substring, trim, trim_range,
};

verus! {

/// One transition of the idle state.
#[derive(Clone, Debug, PartialEq, Eq)]
pub struct IdleHistoryEntry {
    pub state: String,
    pub timestamp: String,
    pub reason: String,
    pub seconds_ago: Option<u64>,
}

pub struct IdleEntryView {
    pub state: Seq<char>,
    pub timestamp: Seq<char>,
    pub reason: Seq<char>,
    pub seconds_ago: Option<u64>,
}

impl View for IdleHistoryEntry {
    type V = IdleEntryView;

    open spec fn view(&self) -> IdleEntryView {
        IdleEntryView {
            state: self.state@,
            timestamp: self.timestamp@,
            reason: self.reason@,
            seconds_ago: self.seconds_ago,
        }
    }
}

/// The name shown for an idle state.
pub open spec fn idle_state_name(state: Seq<char>) -> Seq<char> {
    if state == "normal"@ {
        "Awake"@
    } else if state == "light-idle"@ {
        "light-sleep"@
    } else if state == "deep-idle"@ {
        "deep-sleep"@
    } else {
        state
    }
}

pub fn rename_idle_state(state: &str) -> (r: String)
    ensures
        r@ == idle_state_name(state@),
{
    let v = chars_of(state);
    assert(v@.subrange(0, v.len() as int) =~= state@);
    if crate::text::range_eq(&v, 0, v.len(), "normal") {
        String::from_str("Awake")
    } else if crate::text::range_eq(&v, 0, v.len(), "light-idle") {
        String::from_str("light-sleep")
    } else if crate::text::range_eq(&v, 0, v.len(), "deep-idle") {
        String::from_str("deep-sleep")
    } else {
        String::from_str(state)
    }
}

pub open spec fn sat_add(a: u64, b: u64) -> u64 {
    if a + b > u64::MAX {
        u64::MAX
    } else {
        (a + b) as u64
    }
}

pub open spec fn sat_mul(a: u64, b: u64) -> u64 {
    if a * b > u64::MAX {
        u64::MAX
    } else {
        (a * b) as u64
    }
}

/// Seconds per unit letter (`d`, `h`, `m`, `s`); 0 for any other character.
pub open spec fn unit_seconds(c: char) -> u64 {
    if c == 'd' {
        86_400
    } else if c == 'h' {
        3_600
    } else if c == 'm' {
        60
    } else if c == 's' {
        1
    } else {
        0
    }
}

/// Reads the rest `s` of a duration such as `1h2m3s`, with `total` seconds
/// so far, the digits `digits` not yet given a unit, and whether a unit was
/// seen. Every number followed by a unit letter adds to the total (sums and
/// products saturate); a number followed by another character is dropped;
/// a number too large for `u64` makes the whole reading fail, as does the
/// absence of any unit.
pub open spec fn scan_duration(s: Seq<char>, total: u64, digits: Seq<char>, saw_unit: bool) -> Option<
    u64,
>
    decreases s.len(),
{
    if s.len() == 0 {
        if saw_unit {
            Some(total)
        } else {
            None
        }
    } else {
        let c = s[0];
        let rest = s.subrange(1, s.len() as int);
        if is_digit(c) {
            scan_duration(rest, total, digits.push(c), saw_unit)
        } else if digits.len() == 0 {
            scan_duration(rest, total, digits, saw_unit)
        } else {
            match parse_unsigned(digits, u64::MAX as nat) {
                None => None,
                Some(a) => if unit_seconds(c) > 0 {
                    scan_duration(
                        rest,
                        sat_add(total, sat_mul(a as u64, unit_seconds(c))),
                        Seq::empty(),
                        true,
                    )
                } else {
                    scan_duration(rest, total, Seq::empty(), saw_unit)
                },
            }
        }
    }
}

/// The seconds that an idle timestamp such as `1h2m3s` spells.
pub open spec fn idle_timestamp_seconds(value: Seq<char>) -> Option<u64> {
    scan_duration(value, 0, Seq::empty(), false)
}

pub fn parse_idle_timestamp_seconds(value: &str) -> (r: Option<u64>)
    ensures
        r == idle_timestamp_seconds(value@),
{
    let v = chars_of(value);
    assert(v@.subrange(0, v.len() as int) =~= value@);
    let mut total: u64 = 0;
    let mut run: usize = 0;
    let mut saw_unit = false;
    let mut i: usize = 0;
    assert(v@.subrange(0, 0) =~= Seq::<char>::empty());
    while i < v.len()
        invariant
            v@ == value@,
            run <= i <= v.len(),
            idle_timestamp_seconds(value@) == scan_duration(
                v@.subrange(i as int, v.len() as int),
                total,
                v@.subrange(run as int, i as int),
                saw_unit,
            ),
        decreases v.len() - i,
    {
        let ghost s = v@.subrange(i as int, v.len() as int);
        let ghost digits = v@.subrange(run as int, i as int);
        assert(s.subrange(1, s.len() as int) =~= v@.subrange(i + 1, v.len() as int));
        let c = v[i];
        let u = c as u32;
        if 48 <= u && u <= 57 {
            assert(v@.subrange(run as int, i + 1) =~= digits.push(c));
            i = i + 1;
        } else if run == i {
            i = i + 1;
            run = i;
            assert(v@.subrange(run as int, i as int) =~= digits);
        } else {
            let amount = match parse_unsigned_range(&v, run, i, u64::MAX) {
                Some(a) => a,
                None => {
                    return None;
                },
            };
            let mult: u64 = if c == 'd' {
                86_400
            } else if c == 'h' {
                3_600
            } else if c == 'm' {
                60
            } else if c == 's' {
                1
            } else {
                0
            };
            if mult > 0 {
                let product = if amount <= u64::MAX / mult {
                    amount * mult
                } else {
                    u64::MAX
                };
                assert(amount <= u64::MAX / mult ==> amount * mult <= u64::MAX) by (nonlinear_arith)
                    requires
                        mult > 0,
                ;
                assert(amount > u64::MAX / mult ==> amount * mult > u64::MAX) by (nonlinear_arith)
                    requires
                        mult > 0,
                ;
                total = if total <= u64::MAX - product {
                    total + product
                } else {
                    u64::MAX
                };
                saw_unit = true;
            }
            i = i + 1;
            run = i;
            assert(v@.subrange(run as int, i as int) =~= Seq::<char>::empty());
        }
    }
    if saw_unit {
        Some(total)
    } else {
        None
    }
}

/// The history entry that one `dumpsys deviceidle` line holds, if any: the
/// trimmed line must read `<state>: -<timestamp>`, with a state; the
/// timestamp runs up to the first `ms` and is trimmed; the reason is the text
/// in the final parentheses (`--` where the line does not end in them).
pub open spec fn idle_entry(line: Seq<char>) -> Option<IdleEntryView> {
    let t = trim(line);
    let sep = find_text(t, ": -"@);
    if sep >= t.len() || sep == 0 {
        None
    } else {
        let state = t.subrange(0, sep as int);
        let rest = t.subrange(sep as int + 3, t.len() as int);
        let timestamp = trim(rest.subrange(0, find_text(rest, "ms"@) as int));
        let open = crate::android::after_last(t, '(');
        let reason = if open > 0 && t[t.len() - 1] == ')' {
            t.subrange(open as int, t.len() - 1)
        } else {
            "--"@
        };
        Some(
            IdleEntryView {
                state: idle_state_name(state),
                timestamp: timestamp,
                reason: reason,
                seconds_ago: idle_timestamp_seconds(timestamp),
            },
        )
    }
}

pub open spec fn opt_entry(e: Option<IdleHistoryEntry>) -> Option<IdleEntryView> {
    match e {
        Some(e) => Some(e@),
        None => None,
    }
}

fn after_last_before(v: &Vec<char>, lo: usize, hi: usize, c: char) -> (r: usize)
    requires
        lo <= hi <= v.len(),
    ensures
        r == crate::android::after_last(v@.subrange(lo as int, hi as int), c),
        r <= hi - lo,
    decreases hi - lo,
{
    if hi == lo {
        0
    } else if v[hi - 1] == c {
        hi - lo
    } else {
        assert(v@.subrange(lo as int, hi as int).subrange(0, hi - 1 - lo) =~= v@.subrange(
            lo as int,
            hi - 1,
        ));
        after_last_before(v, lo, hi - 1, c)
    }
}

fn entry_in(v: &Vec<char>, text: &str, lo: usize, hi: usize) -> (r: Option<IdleHistoryEntry>)
    requires
        v@ == text@,
        lo <= hi <= v.len(),
    ensures
        opt_entry(r) == idle_entry(v@.subrange(lo as int, hi as int)),
{
    let (a, b) = trim_range(v, lo, hi);
    let ghost t = v@.subrange(a as int, b as int);
    proof {
        lemma_find_text_bounds(t, ": -"@);
        reveal_strlit(": -");
    }
    let sep = find_str(v, a, b, ": -");
    if sep == b || sep == a {
        return None;
    }
    let r0 = sep + 3;
    assert(t.subrange(sep - a + 3, t.len() as int) =~= v@.subrange(r0 as int, b as int));
    let ghost rest = v@.subrange(r0 as int, b as int);
    proof {
        lemma_find_text_bounds(rest, "ms"@);
    }
    let ms = find_str(v, r0, b, "ms");
    assert(rest.subrange(0, ms - r0) =~= v@.subrange(r0 as int, ms as int));
    let (ta, tb) = trim_range(v, r0, ms);
    let timestamp = substring(text, ta, tb);
    let open = after_last_before(v, a, b, '(');
    proof {
        crate::android::lemma_after_last(t, '(');
    }
    let reason = if open > 0 && v[b - 1] == ')' {
        assert(t[t.len() - 1] == ')');
        assert(open < t.len());
        assert(t.subrange(open as int, t.len() - 1) =~= v@.subrange(a + open, b - 1));
        substring(text, a + open, b - 1)
    } else {
        proof {
            reveal_strlit("--");
        }
        String::from_str("--")
    };
    assert(t.subrange(0, sep - a) =~= v@.subrange(a as int, sep as int));
    let state = rename_idle_state(text.substring_char(a, sep));
    let seconds = parse_idle_timestamp_seconds(timestamp.as_str());
    Some(IdleHistoryEntry { state: state, timestamp: timestamp, reason: reason, seconds_ago: seconds })
}

/// The history entry of one line, as `idle_entry` states it.
pub fn parse_deviceidle_history_line(line: &str) -> (r: Option<IdleHistoryEntry>)
    ensures
        opt_entry(r) == idle_entry(line@),
{
    let v = chars_of(line);
    assert(v@.subrange(0, v.len() as int) =~= line@);
    entry_in(&v, line, 0, v.len())
}

/// The entries that the lines of `lines` hold, in order.
pub open spec fn idle_entries(lines: Seq<Seq<char>>) -> Seq<IdleEntryView>
    decreases lines.len(),
{
    if lines.len() == 0 {
        Seq::empty()
    } else {
        idle_entries(lines.subrange(0, lines.len() - 1)) + match idle_entry(
            lines[lines.len() - 1],
        ) {
            Some(e) => seq![e],
            None => Seq::empty(),
        }
    }
}

pub open spec fn entries_view(es: Seq<IdleHistoryEntry>) -> Seq<IdleEntryView> {
    es.map_values(|e: IdleHistoryEntry| e@)
}

/// The history entries of `dumpsys deviceidle` output, in order.
#[verifier::loop_isolation(false)]
pub fn parse_deviceidle_history(output: &str) -> (r: Vec<IdleHistoryEntry>)
    ensures
        entries_view(r@) == idle_entries(split_lines(output@)),
{
    let v = chars_of(output);
    let ranges = crate::text::line_ranges(&v);
    let ghost lines = split_lines(v@);
    let mut r: Vec<IdleHistoryEntry> = Vec::new();
    let mut i: usize = 0;
    assert(entries_view(r@) =~= idle_entries(lines.subrange(0, 0)));
    while i < ranges.len()
        invariant
            0 <= i <= ranges.len(),
            entries_view(r@) == idle_entries(lines.subrange(0, i as int)),
        decreases ranges.len() - i,
    {
        let (lo, hi) = ranges[i];
        match entry_in(&v, output, lo, hi) {
            Some(e) => {
                r.push(e);
            },
            None => {},
        }
        proof {
            let u = lines.subrange(0, i + 1);
            assert(u.subrange(0, i as int) =~= lines.subrange(0, i as int));
            assert(u[i as int] == lines[i as int]);
            assert(entries_view(r@) =~= idle_entries(u));
        }
        i = i + 1;
    }
    assert(lines.subrange(0, ranges.len() as int) =~= lines);
    r
}

/// A span of seconds as `Hh Mm`, `Mm Ss` or `Ss`.
pub open spec fn duration_text(seconds: u64) -> Seq<char> {
    if seconds >= 3_600 {
        decimal((seconds / 3_600) as nat) + "h "@ + decimal(((seconds % 3_600) / 60) as nat) + "m"@
    } else if seconds >= 60 {
        decimal((seconds / 60) as nat) + "m "@ + decimal((seconds % 60) as nat) + "s"@
    } else {
        decimal(seconds as nat) + "s"@
    }
}

pub fn format_duration(seconds: u64) -> (r: String)
    ensures
        r@ == duration_text(seconds),
{
    proof {
        reveal_strlit("h ");
        reveal_strlit("m");
        reveal_strlit("m ");
        reveal_strlit("s");
    }
    let mut r = String::new();
    if seconds >= 3_600 {
        push_decimal(&mut r, seconds / 3_600);
        r.append("h ");
        push_decimal(&mut r, (seconds % 3_600) / 60);
        r.append("m");
    } else if seconds >= 60 {
        push_decimal(&mut r, seconds / 60);
        r.append("m ");
        push_decimal(&mut r, seconds % 60);
        r.append("s");
    } else {
        push_decimal(&mut r, seconds);
        r.append("s");
    }
    assert(r@ =~= duration_text(seconds));
    r
}

/// `s` padded with spaces on the right to `width` characters, as `{:<width}`
/// formats it.
pub open spec fn pad_right(s: Seq<char>, width: nat) -> Seq<char> {
    if s.len() >= width {
        s
    } else {
        s + Seq::new((width - s.len()) as nat, |i: int| ' ')
    }
}

pub fn push_padded(out: &mut String, s: &str, width: usize)
    ensures
        final(out)@ == old(out)@ + pad_right(s@, width as nat),
{
    let ghost base = out@;
    out.append(s);
    let n = s.unicode_len();
    let mut k = n;
    proof {
        reveal_strlit(" ");
        assert(out@ =~= base + s@ + Seq::new(0, |i: int| ' '));
    }
    while k < width
        invariant
            n == s@.len(),
            k >= n,
            k <= width || k == n,
            out@ == base + s@ + Seq::new((k - n) as nat, |i: int| ' '),
        decreases width - k,
    {
        out.append(" ");
        proof {
            reveal_strlit(" ");
        }
        assert(out@ =~= base + s@ + Seq::new((k + 1 - n) as nat, |i: int| ' '));
        k = k + 1;
    }
    assert(out@ =~= base + pad_right(s@, width as nat));
}

pub open spec fn duration_column(last: Option<u64>, current: Option<u64>) -> Seq<char> {
    match (last, current) {
        (Some(l), Some(c)) => duration_text(
            if l >= c {
                (l - c) as u64
            } else {
                (c - l) as u64
            },
        ),
        (None, Some(_)) => "current"@,
        _ => "--"@,
    }
}

pub open spec fn table_row(e: IdleEntryView, duration: Seq<char>) -> Seq<char> {
    pad_right(e.state, 16) + " | "@ + pad_right(duration, 8) + " | "@ + pad_right(e.timestamp, 16)
        + " | "@ + e.reason
}

/// The table rows for `entries`, newest first: each with the time since the
/// row above it (`current` for the first timed one, `--` where untimed).
pub open spec fn table_rows(entries: Seq<IdleEntryView>, last: Option<u64>) -> Seq<Seq<char>>
    decreases entries.len(),
{
    if entries.len() == 0 {
        Seq::empty()
    } else {
        let e = entries[entries.len() - 1];
        let next = if e.seconds_ago is Some {
            e.seconds_ago
        } else {
            last
        };
        seq![table_row(e, duration_column(last, e.seconds_ago))] + table_rows(
            entries.subrange(0, entries.len() - 1),
            next,
        )
    }
}

/// The header of the idle history table.
pub open spec fn table_header() -> Seq<char> {
    pad_right("status"@, 16) + " | "@ + pad_right("duration"@, 8) + " | "@ + pad_right(
        "timestamp"@,
        16,
    ) + " | reason"@
}

pub fn idle_history_header() -> (r: String)
    ensures
        r@ == table_header(),
{
    let mut r = String::new();
    push_padded(&mut r, "status", 16);
    r.append(" | ");
    push_padded(&mut r, "duration", 8);
    r.append(" | ");
    push_padded(&mut r, "timestamp", 16);
    r.append(" | reason");
    assert(r@ =~= table_header());
    r
}

/// The rows of the idle history table, as `table_rows` states them.
pub fn idle_history_rows(entries: &Vec<IdleHistoryEntry>) -> (rows: Vec<String>)
    ensures
        crate::runtime::texts(rows@) == table_rows(entries_view(entries@), None),
{
    let mut rows: Vec<String> = Vec::new();
    let mut last: Option<u64> = None;
    let mut k = entries.len();
    assert(entries_view(entries@).subrange(0, k as int) =~= entries_view(entries@));
    while k > 0
        invariant
            k <= entries.len(),
            crate::runtime::texts(rows@) + table_rows(
                entries_view(entries@).subrange(0, k as int),
                last,
            ) == table_rows(entries_view(entries@), None),
        decreases k,
    {
        let e = &entries[k - 1];
        let duration = match (last, e.seconds_ago) {
            (Some(l), Some(c)) => format_duration(
                if l >= c {
                    l - c
                } else {
                    c - l
                },
            ),
            (None, Some(_)) => String::from_str("current"),
            _ => String::from_str("--"),
        };
        let mut row = String::new();
        push_padded(&mut row, e.state.as_str(), 16);
        row.append(" | ");
        push_padded(&mut row, duration.as_str(), 8);
        row.append(" | ");
        push_padded(&mut row, e.timestamp.as_str(), 16);
        row.append(" | ");
        row.append(e.reason.as_str());
        proof {
            let es = entries_view(entries@).subrange(0, k as int);
            assert(es[es.len() - 1] == e@);
            assert(es.subrange(0, es.len() - 1) =~= entries_view(entries@).subrange(0, k - 1));
            assert(duration@ == duration_column(last, e.seconds_ago));
            assert(row@ =~= table_row(e@, duration_column(last, e.seconds_ago)));
        }
        let ghost before = rows@;
        rows.push(row);
        if e.seconds_ago.is_some() {
            last = e.seconds_ago;
        }
        proof {
            assert(crate::runtime::texts(rows@) =~= crate::runtime::texts(before).push(rows@[rows.len() - 1]@));
        }
        k = k - 1;
    }
    assert(crate::runtime::texts(rows@) =~= crate::runtime::texts(rows@) + table_rows(
        entries_view(entries@).subrange(0, 0),
        last,
    ));
    rows
}

} // verus!
