//! Battery learning: the charge-level history, its file format, and the
//! threshold derived from it.
use vstd::prelude::*;
use vstd::relations::{sorted_by, total_ordering};
use crate::text::{
    chars_of, decimal, find_char, index_of, lemma_decimal_digits, lemma_decimal_plain,
    lemma_index_of, lemma_index_of_bounds, lemma_parse_decimal, parse_unsigned,
    parse_unsigned_range, push_decimal, trim, trim_range,
};

verus! {

broadcast use vstd::seq_lib::group_to_multiset_ensures;

// ---------------------------------------------------------------------------
// File formats
// ---------------------------------------------------------------------------

/// The point that one line of the learning file holds: the trimmed line read
/// as a whole percentage, or nothing where it is not one.
pub open spec fn point_of_line(line: Seq<char>) -> Seq<u8> {
    match parse_unsigned(trim(line), 100) {
        Some(n) => seq![n as u8],
        None => Seq::empty(),
    }
}

/// The points that the learning file `text` holds, in file order.
pub open spec fn learning_points(text: Seq<char>) -> Seq<u8>
    decreases text.len(),
{
    let nl = index_of(text, '\n');
    let head = point_of_line(text.subrange(0, nl as int));
    if nl < text.len() {
        head + learning_points(text.subrange(nl as int + 1, text.len() as int))
    } else {
        head
    }
}

/// Reads the points of a learning file; lines that are not a percentage
/// between 0 and 100 are skipped.
pub fn parse_learning_points(text: &str) -> (points: Vec<u8>)
    ensures
        points@ == learning_points(text@),
{
    let v = chars_of(text);
    let mut out: Vec<u8> = Vec::new();
    let mut pos: usize = 0;
    assert(v@.subrange(0, v.len() as int) =~= text@);
    loop
        invariant
            v@ == text@,
            pos <= v.len(),
            out@ + learning_points(v@.subrange(pos as int, v.len() as int)) == learning_points(
                text@,
            ),
        decreases v.len() - pos,
    {
        let ghost s = v@.subrange(pos as int, v.len() as int);
        let ghost before = out@;
        let nl = find_char(&v, pos, v.len(), '\n');
        proof {
            lemma_index_of_bounds(s, '\n');
            assert(s.subrange(0, nl - pos) =~= v@.subrange(pos as int, nl as int));
        }
        let (a, b) = trim_range(&v, pos, nl);
        match parse_unsigned_range(&v, a, b, 100) {
            Some(n) => {
                out.push(n as u8);
            },
            None => {},
        }
        proof {
            assert(out@ =~= before + point_of_line(v@.subrange(pos as int, nl as int)));
        }
        if nl == v.len() {
            assert(out@ =~= learning_points(text@));
            return out;
        }
        proof {
            assert(s.subrange(nl - pos + 1, s.len() as int) =~= v@.subrange(
                nl + 1,
                v.len() as int,
            ));
            assert(out@ + learning_points(v@.subrange(nl + 1, v.len() as int)) =~= before
                + learning_points(s));
        }
        pos = nl + 1;
    }
}

/// The learning file for `points`: one point per line.
pub open spec fn points_text(points: Seq<u8>) -> Seq<char>
    decreases points.len(),
{
    if points.len() == 0 {
        Seq::empty()
    } else {
        points_text(points.subrange(0, points.len() - 1)) + decimal(
            points[points.len() - 1] as nat,
        ) + seq!['\n']
    }
}

/// The learning file for `points`: one point per line.
pub fn learning_file_text(points: &Vec<u8>) -> (s: String)
    ensures
        s@ == points_text(points@),
{
    let mut s = String::new();
    let mut i: usize = 0;
    while i < points.len()
        invariant
            0 <= i <= points.len(),
            s@ == points_text(points@.subrange(0, i as int)),
        decreases points.len() - i,
    {
        proof {
            assert(points@.subrange(0, i + 1).subrange(0, i as int) =~= points@.subrange(
                0,
                i as int,
            ));
            reveal_strlit("\n");
        }
        push_decimal(&mut s, points[i] as u64);
        s.append("\n");
        i = i + 1;
    }
    assert(points@.subrange(0, points.len() as int) =~= points@);
    s
}

/// The threshold file for `value`.
pub open spec fn threshold_text(value: u8) -> Seq<char> {
    decimal(value as nat) + seq!['\n']
}

/// The threshold file for `value`, as `force_threshold` writes it.
pub fn threshold_file_text(value: u8) -> (s: String)
    ensures
        s@ == threshold_text(value),
{
    let mut s = String::new();
    push_decimal(&mut s, value as u64);
    s.append("\n");
    proof {
        reveal_strlit("\n");
    }
    assert(s@ =~= threshold_text(value));
    s
}

/// The threshold that a threshold file holds: its trimmed text as a whole
/// percentage, or `fallback` where there is no file or no such number.
pub open spec fn stored_threshold(text: Option<Seq<char>>, fallback: u8) -> u8 {
    match text {
        Some(t) => match parse_unsigned(trim(t), 100) {
            Some(n) => n as u8,
            None => fallback,
        },
        None => fallback,
    }
}

pub open spec fn opt_str(text: Option<&str>) -> Option<Seq<char>> {
    match text {
        Some(t) => Some(t@),
        None => None,
    }
}

/// The threshold that the threshold file `text` holds (`None`: there is
/// none), or `fallback`.
pub fn threshold_from_text(text: Option<&str>, fallback: u8) -> (t: u8)
    ensures
        t == stored_threshold(opt_str(text), fallback),
{
    match text {
        Some(t) => {
            let v = chars_of(t);
            let (a, b) = trim_range(&v, 0, v.len());
            assert(v@.subrange(0, v.len() as int) =~= t@);
            match parse_unsigned_range(&v, a, b, 100) {
                Some(n) => n as u8,
                None => fallback,
            }
        },
        None => fallback,
    }
}

// ---------------------------------------------------------------------------
// Smoothing
// ---------------------------------------------------------------------------

/// The order by value.
pub open spec fn by_value() -> spec_fn(u8, u8) -> bool {
    |a: u8, b: u8| a <= b
}

/// `points` in ascending order.
pub open spec fn sorted_points(points: Seq<u8>) -> Seq<u8> {
    points.sort_by(by_value())
}

/// The middle of the sorted points, without the lowest and the highest
/// quarter.
pub open spec fn trimmed_window(points: Seq<u8>) -> Seq<u8> {
    let s = sorted_points(points);
    let t = s.len() / 4;
    s.subrange(t as int, s.len() - t)
}

pub open spec fn sum_points(s: Seq<u8>) -> nat
    decreases s.len(),
{
    if s.len() == 0 {
        0
    } else {
        sum_points(s.subrange(0, s.len() - 1)) + (s[s.len() - 1] as nat)
    }
}

/// `sum / n` rounded to the nearest whole number, halves up.
pub open spec fn mean_rounded(sum: nat, n: nat) -> nat {
    (2 * sum + n) / (2 * n)
}

pub open spec fn clamp(x: nat, lo: u8, hi: u8) -> u8 {
    if x < lo {
        lo
    } else if x > hi {
        hi
    } else {
        x as u8
    }
}

/// The new threshold: the mean of the trimmed window (the old threshold where
/// the window is empty), as a whole percentage, blended as
/// `0.3 × mean + 0.7 × old`, rounded to the nearest whole percentage (halves
/// up) and clamped to `min..=max`.
pub open spec fn smoothed_threshold(points: Seq<u8>, old: u8, min: u8, max: u8) -> u8 {
    let w = trimmed_window(points);
    let mean = if w.len() == 0 {
        old as nat
    } else {
        mean_rounded(sum_points(w), w.len())
    };
    clamp((3 * mean + 7 * (old as nat) + 5) / 10, min, max)
}

proof fn lemma_by_value_total()
    ensures
        total_ordering(by_value()),
{
}

/// `points` in ascending order.
pub fn sort_points(points: &[u8]) -> (r: Vec<u8>)
    ensures
        r@ == sorted_points(points@),
{
    let mut r: Vec<u8> = Vec::new();
    let mut i: usize = 0;
    while i < points.len()
        invariant
            0 <= i <= points.len(),
            sorted_by(r@, by_value()),
            r@.to_multiset() == points@.subrange(0, i as int).to_multiset(),
        decreases points.len() - i,
    {
        let x = points[i];
        let mut p: usize = 0;
        while p < r.len() && r[p] <= x
            invariant
                0 <= p <= r.len(),
                forall|j: int| 0 <= j < p ==> r@[j] <= x,
            decreases r.len() - p,
        {
            p = p + 1;
        }
        let ghost old_r = r@;
        r.insert(p, x);
        proof {
            assert(old_r =~= old_r.subrange(0, p as int) + old_r.subrange(p as int, old_r.len() as int));
            assert(r@ =~= old_r.subrange(0, p as int) + seq![x] + old_r.subrange(p as int, old_r.len() as int));
            vstd::seq_lib::lemma_multiset_commutative(old_r.subrange(0, p as int), old_r.subrange(p as int, old_r.len() as int));
            vstd::seq_lib::lemma_multiset_commutative(old_r.subrange(0, p as int) + seq![x], old_r.subrange(p as int, old_r.len() as int));
            vstd::seq_lib::lemma_multiset_commutative(old_r.subrange(0, p as int), seq![x]);
            assert(seq![x] =~= Seq::<u8>::empty().push(x));
            assert(points@.subrange(0, i + 1) =~= points@.subrange(0, i as int).push(x));
            assert(r@.to_multiset() =~= points@.subrange(0, i + 1).to_multiset());
            assert forall|a: int, b: int| 0 <= a < b < r@.len() implies #[trigger] (by_value())(r@[a], r@[b]) by {
                if b < p {
                } else if b == p {
                } else if a < p {
                } else if a == p {
                    assert(p < old_r.len() ==> old_r[p as int] > x);
                    assert(sorted_by(old_r, by_value()));
                    assert((by_value())(old_r[p as int], old_r[b - 1]));
                } else {
                    assert((by_value())(old_r[a - 1], old_r[b - 1]));
                }
            }
        }
        i = i + 1;
    }
    proof {
        assert(points@.subrange(0, points.len() as int) =~= points@);
        lemma_by_value_total();
        points@.lemma_sort_by_ensures(by_value());
        vstd::seq_lib::lemma_sorted_unique(r@, points@.sort_by(by_value()), by_value());
    }
    r
}

/// The threshold after learning from `points`, as `smoothed_threshold` states it.
pub fn smooth_trimmed_threshold(points: &[u8], old: u8, min: u8, max: u8) -> (t: u8)
    requires
        min <= max,
    ensures
        t == smoothed_threshold(points@, old, min, max),
{
    let sorted = sort_points(points);
    let n = sorted.len();
    let cut = n / 4;
    let hi = n - cut;
    let mut sum: u128 = 0;
    let mut i = cut;
    while i < hi
        invariant
            cut <= i <= hi <= sorted.len(),
            sum == sum_points(sorted@.subrange(cut as int, i as int)),
            sum <= 255 * (i - cut),
        decreases hi - i,
    {
        proof {
            let w = sorted@.subrange(cut as int, i + 1);
            assert(w.subrange(0, w.len() - 1) =~= sorted@.subrange(cut as int, i as int));
        }
        sum = sum + sorted[i] as u128;
        i = i + 1;
    }
    let count = (hi - cut) as u128;
    let mean: u128 = if count == 0 {
        old as u128
    } else {
        assert((2 * sum + count) / (2 * count) <= 255) by (nonlinear_arith)
            requires
                sum <= 255 * count,
                count > 0,
        ;
        (2 * sum + count) / (2 * count)
    };
    let blended = (3 * mean + 7 * (old as u128) + 5) / 10;
    if blended < min as u128 {
        min
    } else if blended > max as u128 {
        max
    } else {
        blended as u8
    }
}

// ---------------------------------------------------------------------------
// Recording charge points
// ---------------------------------------------------------------------------

/// The history after recording `level`: appended, then only the last
/// `max_points` kept.
pub open spec fn recorded_points(points: Seq<u8>, level: u8, max_points: nat) -> Seq<u8> {
    let p = points.push(level);
    if p.len() > max_points {
        p.subrange(p.len() - max_points, p.len() as int)
    } else {
        p
    }
}

/// The history `points` with the level `level` recorded: the newest
/// `max_points` points of it.
pub fn record_point(points: Vec<u8>, level: u8, max_points: usize) -> (r: Vec<u8>)
    ensures
        r@ == recorded_points(points@, level, max_points as nat),
{
    let mut points = points;
    points.push(level);
    if points.len() > max_points {
        let ghost p = points@;
        let drop = points.len() - max_points;
        let mut kept: Vec<u8> = Vec::new();
        let mut i = drop;
        while i < points.len()
            invariant
                drop <= i <= points.len(),
                points@ == p,
                kept@ == p.subrange(drop as int, i as int),
            decreases points.len() - i,
        {
            kept.push(points[i]);
            proof {
                assert(kept@ =~= p.subrange(drop as int, i + 1));
            }
            i = i + 1;
        }
        points = kept;
    }
    points
}

/// What recording a charge point decides: the history to write back, the
/// threshold now in force, and whether the threshold file must be rewritten.
#[derive(Clone, Debug, PartialEq, Eq)]
pub struct ChargePointUpdate {
    pub points: Vec<u8>,
    pub threshold: u8,
    pub write_threshold: bool,
}

/// Records the charge level `level` in the history `points` (as read from the
/// learning file) and derives the threshold. Until the history holds
/// `min_points` points the stored threshold stands (`min_threshold` where
/// none is stored); from then on the history is smoothed into a new one, which
/// is written to the threshold file.
pub fn charge_point_update(
    points: Vec<u8>,
    stored: Option<&str>,
    level: u8,
    min_points: usize,
    max_points: usize,
    min_threshold: u8,
    max_threshold: u8,
) -> (u: ChargePointUpdate)
    requires
        recorded_points(points@, level, max_points as nat).len() >= min_points ==> min_threshold
            <= max_threshold,
    ensures
        u.points@ == recorded_points(points@, level, max_points as nat),
        ({
            let old_threshold = stored_threshold(opt_str(stored), min_threshold);
            if u.points@.len() < min_points {
                u.threshold == old_threshold && !u.write_threshold
            } else {
                &&& u.threshold == smoothed_threshold(
                    u.points@,
                    old_threshold,
                    min_threshold,
                    max_threshold,
                )
                &&& u.write_threshold
            }
        }),
{
    let points = record_point(points, level, max_points);
    let old_threshold = threshold_from_text(stored, min_threshold);
    if points.len() < min_points {
        return ChargePointUpdate { points: points, threshold: old_threshold, write_threshold: false };
    }
    let new_threshold = smooth_trimmed_threshold(
        points.as_slice(),
        old_threshold,
        min_threshold,
        max_threshold,
    );
    ChargePointUpdate { points: points, threshold: new_threshold, write_threshold: true }
}

/// One step of the generator that seeds test learning data.
pub open spec fn lcg_step(state: u64) -> u64 {
    state.wrapping_mul(6364136223846793005).wrapping_add(1)
}

/// The generator state after `k` steps from `seed`.
pub open spec fn lcg_state(seed: u64, k: nat) -> u64
    decreases k,
{
    if k == 0 {
        seed
    } else {
        lcg_step(lcg_state(seed, (k - 1) as nat))
    }
}

/// The charge level drawn from a generator state: 15 to 50.
pub open spec fn random_point(state: u64) -> u8 {
    (((state >> 32u64) % 36) + 15) as u8
}

/// The 25 points of test learning data drawn from `seed`.
pub open spec fn random_points(seed: u64) -> Seq<u8> {
    Seq::new(25, |i: int| random_point(lcg_state(seed, (i + 1) as nat)))
}

/// The 25 points of test learning data drawn from `seed`.
pub fn random_learning_points(seed: u64) -> (points: Vec<u8>)
    ensures
        points@ == random_points(seed),
{
    let mut points: Vec<u8> = Vec::new();
    let mut state = seed;
    let mut k: usize = 0;
    while k < 25
        invariant
            0 <= k <= 25,
            state == lcg_state(seed, k as nat),
            points@ == random_points(seed).subrange(0, k as int),
        decreases 25 - k,
    {
        state = state.wrapping_mul(6364136223846793005).wrapping_add(1);
        let value = ((state >> 32) % 36) + 15;
        points.push(value as u8);
        proof {
            assert(points@ =~= random_points(seed).subrange(0, k + 1));
        }
        k = k + 1;
    }
    assert(points@ =~= random_points(seed));
    points
}

// ---------------------------------------------------------------------------
// Laws
// ---------------------------------------------------------------------------

proof fn lemma_points_text_front(points: Seq<u8>)
    requires
        points.len() > 0,
    ensures
        points_text(points) == decimal(points[0] as nat) + seq!['\n'] + points_text(
            points.subrange(1, points.len() as int),
        ),
    decreases points.len(),
{
    if points.len() == 1 {
        assert(points.subrange(0, 0).len() == 0);
        assert(points.subrange(1, 1).len() == 0);
        assert(points_text(points.subrange(0, 0)) =~= Seq::<char>::empty());
        assert(points_text(points.subrange(1, 1)) =~= Seq::<char>::empty());
        assert(points_text(points) =~= decimal(points[0] as nat) + seq!['\n']);
    } else {
        let init = points.subrange(0, points.len() - 1);
        lemma_points_text_front(init);
        assert(init.subrange(1, init.len() as int) =~= points.subrange(1, points.len() as int).subrange(0, points.len() - 2));
        assert(points.subrange(1, points.len() as int)[points.len() - 2] == points[points.len() - 1]);
        assert(points_text(points) =~= decimal(points[0] as nat) + seq!['\n'] + points_text(
            points.subrange(1, points.len() as int),
        ));
    }
}

/// Reading back a learning file gives the points that were written, when
/// each of them is a percentage (0 to 100).
pub proof fn lemma_learning_file_round_trip(points: Seq<u8>)
    requires
        forall|i: int| 0 <= i < points.len() ==> points[i] <= 100,
    ensures
        learning_points(points_text(points)) == points,
    decreases points.len(),
{
    if points.len() == 0 {
        let e = Seq::<char>::empty();
        assert(points_text(points) =~= e);
        assert(index_of(e, '\n') == 0);
        assert(e.subrange(0, 0) =~= e);
        assert(trim(e) =~= e);
        assert(learning_points(e) =~= Seq::<u8>::empty());
    } else {
        let d = decimal(points[0] as nat);
        let rest = points.subrange(1, points.len() as int);
        lemma_points_text_front(points);
        lemma_decimal_plain(points[0] as nat);
        lemma_parse_decimal(points[0] as nat, 100);
        let t = points_text(points);
        assert(t =~= d + seq!['\n'] + points_text(rest));
        assert forall|j: int| 0 <= j < d.len() implies t[j] != '\n' by {
            assert(t[j] == d[j]);
        }
        lemma_index_of(t, '\n', d.len() as int);
        assert(t.subrange(0, d.len() as int) =~= d);
        assert(t.subrange(d.len() as int + 1, t.len() as int) =~= points_text(rest));
        lemma_learning_file_round_trip(rest);
        assert(point_of_line(d) =~= seq![points[0]]);
        assert(points =~= seq![points[0]] + rest);
    }
}

/// Reading back a threshold file gives the threshold that was written, when
/// it is a percentage (0 to 100).
pub proof fn lemma_threshold_file_round_trip(value: u8, fallback: u8)
    requires
        value <= 100,
    ensures
        stored_threshold(Some(threshold_text(value)), fallback) == value,
{
    let d = decimal(value as nat);
    let t = threshold_text(value);
    lemma_decimal_plain(value as nat);
    lemma_decimal_digits(value as nat);
    lemma_parse_decimal(value as nat, 100);
    assert(t.subrange(0, t.len() - 1) =~= d);
    assert(crate::text::is_ws(t[t.len() - 1]));
    assert(crate::text::trim_end(t) == crate::text::trim_end(d));
    assert(crate::text::trim_start(t) == t);
}

/// The derived threshold never leaves `min..=max`.
pub proof fn lemma_smoothed_within_bounds(points: Seq<u8>, old: u8, min: u8, max: u8)
    requires
        min <= max,
    ensures
        min <= smoothed_threshold(points, old, min, max) <= max,
{
}

proof fn lemma_sum_constant(s: Seq<u8>, v: u8)
    requires
        forall|i: int| 0 <= i < s.len() ==> s[i] == v,
    ensures
        sum_points(s) == s.len() * (v as nat),
    decreases s.len(),
{
    if s.len() > 0 {
        lemma_sum_constant(s.subrange(0, s.len() - 1), v);
        assert(sum_points(s) == (s.len() - 1) * (v as nat) + (v as nat));
        assert((s.len() - 1) * (v as nat) + (v as nat) == s.len() * (v as nat)) by (nonlinear_arith);
    }
}

/// A history that agrees with a threshold inside `min..=max` leaves that
/// threshold unchanged.
pub proof fn lemma_smoothing_stable(points: Seq<u8>, old: u8, min: u8, max: u8)
    requires
        min <= old <= max,
        forall|i: int| 0 <= i < points.len() ==> points[i] == old,
    ensures
        smoothed_threshold(points, old, min, max) == old,
{
    lemma_by_value_total();
    points.lemma_sort_by_ensures(by_value());
    let s = sorted_points(points);
    let w = trimmed_window(points);
    assert forall|i: int| 0 <= i < s.len() implies s[i] == old by {
        assert(s.contains(s[i]));
        if s[i] != old {
            assert(!points.contains(s[i]));
        }
    }
    assert forall|i: int| 0 <= i < w.len() implies w[i] == old by {
        assert(w[i] == s[i + s.len() / 4]);
    }
    lemma_sum_constant(w, old);
    if w.len() > 0 {
        let n = w.len();
        let o = old as nat;
        assert((2 * (n * o) + n) / (2 * n) == o) by (nonlinear_arith)
            requires
                n > 0,
        ;
    }
}

/// The recorded history is the newest `max_points` points (all of them,
/// where there are fewer) of the old history followed by the new level.
pub proof fn lemma_recorded_points_bounded(points: Seq<u8>, level: u8, max_points: nat)
    ensures
        ({
            let p = points.push(level);
            let k = if p.len() > max_points {
                max_points
            } else {
                p.len()
            };
            &&& recorded_points(points, level, max_points) == p.subrange(p.len() - k, p.len() as int)
            &&& recorded_points(points, level, max_points).len() == k
            &&& k > 0 ==> recorded_points(points, level, max_points).last() == level
        }),
{
    let p = points.push(level);
    assert(p.subrange(0, p.len() as int) =~= p);
}

/// Test learning data holds 25 charge levels, each from 15 to 50.
pub proof fn lemma_random_points_range(seed: u64)
    ensures
        random_points(seed).len() == 25,
        forall|i: int| 0 <= i < 25 ==> 15 <= #[trigger] random_points(seed)[i] <= 50,
{
}

/// The lines of the learning file as `check-learning` lists them, numbered
/// from 1.
pub open spec fn numbered_lines(ls: Seq<Seq<char>>) -> Seq<Seq<char>> {
    Seq::new(ls.len(), |i: int| "line "@ + crate::text::decimal((i + 1) as nat) + ": "@ + ls[i])
}

/// The listing of a learning file's text, as `numbered_lines` states it.
pub fn learning_listing(text: &str) -> (r: String)
    ensures
        r@ == crate::config::join_lines(numbered_lines(crate::text::text_lines(text@))),
{
    let lines = crate::text::lines_of(text);
    let ghost ls = crate::text::text_lines(text@);
    let mut out: Vec<String> = Vec::new();
    let mut i: usize = 0;
    while i < lines.len()
        invariant
            i <= lines.len(),
            crate::runtime::texts(lines@) == ls,
            out.len() == i,
            forall|j: int| 0 <= j < i ==> (#[trigger] out@[j])@ == numbered_lines(ls)[j],
        decreases lines.len() - i,
    {
        let mut l = String::from_str("line ");
        crate::text::push_decimal(&mut l, (i + 1) as u64);
        l.append(": ");
        l.append(lines[i].as_str());
        assert(lines@[i as int]@ == ls[i as int]);
        out.push(l);
        i = i + 1;
    }
    assert(crate::config::texts(out@) =~= numbered_lines(ls));
    crate::config::join_line_texts(&out)
}

/// Learning moves the threshold toward the history: the new threshold is
/// the blend of the old one and the trimmed window's mean (the old threshold
/// where the window is empty), clamped, and the blend lies between the two.
pub proof fn lemma_smoothing_moves_toward_mean(points: Seq<u8>, old: u8, min: u8, max: u8)
    ensures
        ({
            let w = trimmed_window(points);
            let mean = if w.len() == 0 {
                old as nat
            } else {
                mean_rounded(sum_points(w), w.len())
            };
            let blend = (3 * mean + 7 * (old as nat) + 5) / 10;
            &&& smoothed_threshold(points, old, min, max) == clamp(blend, min, max)
            &&& mean <= old ==> mean <= blend <= old
            &&& old <= mean ==> old <= blend <= mean
        }),
{
}


proof fn lemma_update_multiset(a: Seq<u8>, i: int, v: u8)
    requires
        0 <= i < a.len(),
    ensures
        a.update(i, v).to_multiset() =~= a.to_multiset().remove(a[i]).insert(v),
{
    broadcast use vstd::multiset::group_multiset_axioms;

    let b = a.update(i, v);
    assert(b.remove(i) =~= a.remove(i));
    assert(b[i] == v);
    assert(b.to_multiset().count(v) > 0);
    assert(b.to_multiset() =~= b.to_multiset().remove(v).insert(v));
}

/// Where `points[k]` is a largest point (`top`) or a smallest one (not
/// `top`), replacing it by a `v` at least as far out leaves the sorted points
/// as they were but for that end, which now holds `v`.
proof fn lemma_sorted_replace_end(points: Seq<u8>, k: int, v: u8, top: bool)
    requires
        0 <= k < points.len(),
        top ==> points[k] <= v && forall|i: int| 0 <= i < points.len() ==> points[i] <= points[k],
        !top ==> v <= points[k] && forall|i: int| 0 <= i < points.len() ==> points[k] <= points[i],
    ensures
        sorted_points(points.update(k, v)) == sorted_points(points).update(
            if top {
                points.len() - 1
            } else {
                0
            },
            v,
        ),
{
    broadcast use vstd::multiset::group_multiset_axioms;

    lemma_by_value_total();
    let n = points.len();
    let q = points.update(k, v);
    points.lemma_sort_by_ensures(by_value());
    q.lemma_sort_by_ensures(by_value());
    let s = sorted_points(points);
    assert(points.to_multiset().len() == n);
    assert(s.to_multiset().len() == s.len());
    assert(s.len() == n);
    let e: int = if top {
        n - 1
    } else {
        0
    };
    assert(s.contains(s[e]));
    assert(points.contains(s[e]));
    assert(points.contains(points[k]));
    assert(s.to_multiset().count(points[k]) > 0);
    assert(s.contains(points[k]));
    let j = choose|j: int| 0 <= j < s.len() && s[j] == points[k];
    let m = choose|m: int| 0 <= m < points.len() && points[m] == s[e];
    if top {
        if j < n - 1 {
            assert(by_value()(s[j], s[n - 1]));
        }
        assert(points[m] <= points[k]);
    } else {
        if j > 0 {
            assert(by_value()(s[0], s[j]));
        }
        assert(points[k] <= points[m]);
    }
    assert(s[e] == points[k]);
    let s2 = s.update(e, v);
    assert forall|a: int, b: int| 0 <= a < b < s2.len() implies #[trigger] by_value()(s2[a], s2[b]) by {
        assert(by_value()(s[a], s[b]));
        if top && b == n - 1 {
            assert(s[a] <= s[n - 1]);
        }
        if !top && a == 0 {
            assert(s[0] <= s[b]);
        }
    }
    assert(sorted_by(s2, by_value()));
    lemma_update_multiset(points, k, v);
    lemma_update_multiset(s, e, v);
    assert(q.to_multiset() =~= s2.to_multiset());
    assert(q.sort_by(by_value()).to_multiset() =~= s2.to_multiset());
    vstd::seq_lib::lemma_sorted_unique(q.sort_by(by_value()), s2, by_value());
}

/// One outlier does not move the threshold: with four points or more, a
/// largest point replaced by a larger value, or a smallest point replaced by
/// a smaller one, leaves the derived threshold as it was, for the trimmed
/// window drops it either way.
pub proof fn lemma_outlier_ignored(points: Seq<u8>, k: int, v: u8, top: bool, old: u8, min: u8, max: u8)
    requires
        points.len() >= 4,
        0 <= k < points.len(),
        top ==> points[k] <= v && forall|i: int| 0 <= i < points.len() ==> points[i] <= points[k],
        !top ==> v <= points[k] && forall|i: int| 0 <= i < points.len() ==> points[k] <= points[i],
    ensures
        smoothed_threshold(points.update(k, v), old, min, max) == smoothed_threshold(points, old, min, max),
        trimmed_window(points.update(k, v)) == trimmed_window(points),
{
    lemma_sorted_replace_end(points, k, v, top);
    lemma_by_value_total();
    points.lemma_sort_by_ensures(by_value());
    let s = sorted_points(points);
    let n = points.len();
    assert(points.to_multiset().len() == n);
    assert(s.to_multiset().len() == s.len());
    assert(s.len() == n);
    let t = n / 4;
    let e: int = if top {
        n - 1
    } else {
        0
    };
    assert(s.update(e, v).subrange(t as int, n - t) =~= s.subrange(t as int, n - t));
}

} // verus!
