//! Character-level helpers shared by the parsers: whitespace, trimming,
//! searching, decimal numbers and string assembly.
use vstd::prelude::*;
use vstd::std_specs::iter::IteratorSpec;

verus! {

broadcast use vstd::string::group_string_axioms;

// ---------------------------------------------------------------------------
// Whitespace and trimming
// ---------------------------------------------------------------------------

/// Unicode `White_Space`: the characters that `str::trim` removes.
pub open spec fn is_ws(c: char) -> bool {
    let u = c as u32;
    ||| (9 <= u && u <= 13)
    ||| u == 32
    ||| u == 0x85
    ||| u == 0xa0
    ||| u == 0x1680
    ||| (0x2000 <= u && u <= 0x200a)
    ||| u == 0x2028
    ||| u == 0x2029
    ||| u == 0x202f
    ||| u == 0x205f
    ||| u == 0x3000
}

pub fn is_whitespace(c: char) -> (b: bool)
    ensures
        b == is_ws(c),
{
    let u = c as u32;
    (9 <= u && u <= 13) || u == 32 || u == 0x85 || u == 0xa0 || u == 0x1680 || (0x2000 <= u && u
        <= 0x200a) || u == 0x2028 || u == 0x2029 || u == 0x202f || u == 0x205f || u == 0x3000
}

/// `s` without its leading whitespace.
pub open spec fn trim_start(s: Seq<char>) -> Seq<char>
    decreases s.len(),
{
    if s.len() > 0 && is_ws(s[0]) {
        trim_start(s.subrange(1, s.len() as int))
    } else {
        s
    }
}

/// `s` without its trailing whitespace.
pub open spec fn trim_end(s: Seq<char>) -> Seq<char>
    decreases s.len(),
{
    if s.len() > 0 && is_ws(s[s.len() - 1]) {
        trim_end(s.subrange(0, s.len() - 1))
    } else {
        s
    }
}

/// `s` without leading and trailing whitespace, as `str::trim` gives it.
pub open spec fn trim(s: Seq<char>) -> Seq<char> {
    trim_end(trim_start(s))
}

/// The bounds of the trimmed part of `v[lo..hi]`.
pub fn trim_range(v: &Vec<char>, lo: usize, hi: usize) -> (r: (usize, usize))
    requires
        lo <= hi <= v.len(),
    ensures
        lo <= r.0 <= r.1 <= hi,
        v@.subrange(r.0 as int, r.1 as int) == trim(v@.subrange(lo as int, hi as int)),
        r.0 < r.1 ==> !is_ws(v@[r.0 as int]) && !is_ws(v@[r.1 - 1]),
{
    let mut a = lo;
    while a < hi && is_whitespace(v[a])
        invariant
            lo <= a <= hi <= v.len(),
            trim_start(v@.subrange(lo as int, hi as int)) == trim_start(
                v@.subrange(a as int, hi as int),
            ),
        decreases hi - a,
    {
        assert(v@.subrange(a as int, hi as int).subrange(1, (hi - a) as int) =~= v@.subrange(
            a + 1,
            hi as int,
        ));
        a = a + 1;
    }
    let mut b = hi;
    while b > a && is_whitespace(v[b - 1])
        invariant
            lo <= a <= b <= hi <= v.len(),
            trim_end(v@.subrange(a as int, hi as int)) == trim_end(
                v@.subrange(a as int, b as int),
            ),
        decreases b - a,
    {
        assert(v@.subrange(a as int, b as int).subrange(0, (b - a - 1) as int) =~= v@.subrange(
            a as int,
            b - 1,
        ));
        b = b - 1;
    }
    (a, b)
}

// ---------------------------------------------------------------------------
// Searching
// ---------------------------------------------------------------------------

/// Position of the first `c` in `s`, or `s.len()` where there is none.
pub open spec fn index_of(s: Seq<char>, c: char) -> nat
    decreases s.len(),
{
    if s.len() == 0 {
        0
    } else if s[0] == c {
        0
    } else {
        1 + index_of(s.subrange(1, s.len() as int), c)
    }
}

pub proof fn lemma_index_of(s: Seq<char>, c: char, k: int)
    requires
        0 <= k <= s.len(),
        forall|j: int| 0 <= j < k ==> s[j] != c,
        k == s.len() || s[k] == c,
    ensures
        index_of(s, c) == k,
    decreases s.len(),
{
    if s.len() > 0 && s[0] != c {
        let t = s.subrange(1, s.len() as int);
        assert forall|j: int| 0 <= j < k - 1 implies t[j] != c by {
            assert(t[j] == s[j + 1]);
        }
        lemma_index_of(t, c, k - 1);
    }
}

pub proof fn lemma_index_of_bounds(s: Seq<char>, c: char)
    ensures
        index_of(s, c) <= s.len(),
        index_of(s, c) < s.len() ==> s[index_of(s, c) as int] == c,
        forall|j: int| 0 <= j < index_of(s, c) ==> s[j] != c,
    decreases s.len(),
{
    if s.len() > 0 && s[0] != c {
        let t = s.subrange(1, s.len() as int);
        lemma_index_of_bounds(t, c);
        assert forall|j: int| 0 <= j < index_of(s, c) implies s[j] != c by {
            if j > 0 {
                assert(s[j] == t[j - 1]);
            }
        }
    }
}

/// The first position `i` in `lo..hi` with `v[i] == c`, or `hi`.
pub fn find_char(v: &Vec<char>, lo: usize, hi: usize, c: char) -> (r: usize)
    requires
        lo <= hi <= v.len(),
    ensures
        lo <= r <= hi,
        r == lo + index_of(v@.subrange(lo as int, hi as int), c),
        r < hi ==> v@[r as int] == c,
        forall|j: int| lo <= j < r ==> v@[j] != c,
{
    let mut i = lo;
    while i < hi && v[i] != c
        invariant
            lo <= i <= hi <= v.len(),
            forall|j: int| lo <= j < i ==> v@[j] != c,
        decreases hi - i,
    {
        i = i + 1;
    }
    proof {
        let s = v@.subrange(lo as int, hi as int);
        assert forall|j: int| 0 <= j < i - lo implies s[j] != c by {
            assert(s[j] == v@[lo + j]);
        }
        lemma_index_of(s, c, i - lo);
    }
    i
}

/// Whether `v[lo..hi]` is exactly the text `lit`.
pub fn range_eq(v: &Vec<char>, lo: usize, hi: usize, lit: &str) -> (b: bool)
    requires
        lo <= hi <= v.len(),
    ensures
        b == (v@.subrange(lo as int, hi as int) == lit@),
{
    let w = chars_of(lit);
    if hi - lo != w.len() {
        return false;
    }
    let mut i: usize = 0;
    while i < w.len()
        invariant
            lo <= hi <= v.len(),
            hi - lo == w.len(),
            w@ == lit@,
            0 <= i <= w.len(),
            forall|j: int| 0 <= j < i ==> v@[lo + j] == w@[j],
        decreases w.len() - i,
    {
        if v[lo + i] != w[i] {
            assert(v@.subrange(lo as int, hi as int)[i as int] != lit@[i as int]);
            return false;
        }
        i = i + 1;
    }
    assert(v@.subrange(lo as int, hi as int) =~= lit@);
    true
}

/// The code of `c` after `char::to_ascii_lowercase`.
pub open spec fn lower_code(c: char) -> u32 {
    if 65 <= (c as u32) && (c as u32) <= 90 {
        ((c as u32) + 32) as u32
    } else {
        c as u32
    }
}

/// Whether the ASCII-lowercased `s` is the text `lit`.
pub open spec fn lower_eq(s: Seq<char>, lit: Seq<char>) -> bool {
    &&& s.len() == lit.len()
    &&& forall|i: int| 0 <= i < s.len() ==> lower_code(#[trigger] s[i]) == lit[i] as u32
}

/// Whether `v[lo..hi]`, ASCII-lowercased, is the text `lit`.
pub fn range_lower_eq(v: &Vec<char>, lo: usize, hi: usize, lit: &str) -> (b: bool)
    requires
        lo <= hi <= v.len(),
    ensures
        b == lower_eq(v@.subrange(lo as int, hi as int), lit@),
{
    let ghost s = v@.subrange(lo as int, hi as int);
    let w = chars_of(lit);
    if hi - lo != w.len() {
        return false;
    }
    let mut i: usize = 0;
    while i < w.len()
        invariant
            lo <= hi <= v.len(),
            hi - lo == w.len(),
            w@ == lit@,
            s == v@.subrange(lo as int, hi as int),
            0 <= i <= w.len(),
            forall|j: int| 0 <= j < i ==> lower_code(#[trigger] s[j]) == w@[j] as u32,
        decreases w.len() - i,
    {
        let c = v[lo + i];
        let u = c as u32;
        let l = if 65 <= u && u <= 90 {
            u + 32
        } else {
            u
        };
        assert(s[i as int] == c);
        if l != w[i] as u32 {
            return false;
        }
        i = i + 1;
    }
    true
}

/// Whether `v[lo..hi]` starts with the text `lit`.
pub fn range_starts_with(v: &Vec<char>, lo: usize, hi: usize, lit: &str) -> (b: bool)
    requires
        lo <= hi <= v.len(),
    ensures
        b == (lit@.len() <= hi - lo && v@.subrange(lo as int, lo + lit@.len()) == lit@),
{
    let w = chars_of(lit);
    if w.len() > hi - lo {
        return false;
    }
    range_eq(v, lo, lo + w.len(), lit)
}

/// Whether `v[lo..hi]` ends with the text `lit`.
pub fn range_ends_with(v: &Vec<char>, lo: usize, hi: usize, lit: &str) -> (b: bool)
    requires
        lo <= hi <= v.len(),
    ensures
        b == (lit@.len() <= hi - lo && v@.subrange(hi - lit@.len(), hi as int) == lit@),
{
    let w = chars_of(lit);
    if w.len() > hi - lo {
        return false;
    }
    range_eq(v, hi - w.len(), hi, lit)
}

// ---------------------------------------------------------------------------
// Strings
// ---------------------------------------------------------------------------

/// The characters of `s`, in order.
pub fn chars_of(s: &str) -> (v: Vec<char>)
    ensures
        v@ == s@,
{
    let mut v: Vec<char> = Vec::new();
    let mut it = s.chars();
    loop
        invariant
            v@ + it.remaining() == s@,
        ensures
            v@ == s@,
        decreases s@.len() - v@.len(),
    {
        match it.next() {
            Some(c) => {
                v.push(c);
            },
            None => {
                break ;
            },
        }
    }
    v
}

/// A new string holding the characters `from..to` of `s`.
pub fn substring(s: &str, from: usize, to: usize) -> (r: String)
    requires
        from <= to <= s@.len(),
    ensures
        r@ == s@.subrange(from as int, to as int),
{
    String::from_str(s.substring_char(from, to))
}

// ---------------------------------------------------------------------------
// Decimal numbers
// ---------------------------------------------------------------------------

pub open spec fn is_digit(c: char) -> bool {
    48 <= (c as u32) && (c as u32) <= 57
}

pub open spec fn digit_value(c: char) -> nat {
    ((c as u32) - 48) as nat
}

pub open spec fn all_digits(s: Seq<char>) -> bool {
    forall|i: int| 0 <= i < s.len() ==> is_digit(s[i])
}

/// The number that the decimal digits `s` spell.
pub open spec fn digits_value(s: Seq<char>) -> nat
    decreases s.len(),
{
    if s.len() == 0 {
        0
    } else {
        digits_value(s.subrange(0, s.len() - 1)) * 10 + digit_value(s[s.len() - 1])
    }
}

/// The digits that follow an optional leading `+`.
pub open spec fn unsigned_body(s: Seq<char>) -> Seq<char> {
    if s.len() > 0 && s[0] == '+' {
        s.subrange(1, s.len() as int)
    } else {
        s
    }
}

/// What `str::parse` gives for an unsigned integer type whose largest value is
/// `max`: an optional `+`, then one or more ASCII digits, at most `max`.
pub open spec fn parse_unsigned(s: Seq<char>, max: nat) -> Option<nat> {
    let b = unsigned_body(s);
    if b.len() > 0 && all_digits(b) && digits_value(b) <= max {
        Some(digits_value(b))
    } else {
        None
    }
}

/// What `str::parse::<i32>` gives: an optional `+` or `-`, then one or more
/// ASCII digits, within the range of `i32`.
pub open spec fn parse_i32(s: Seq<char>) -> Option<int> {
    if s.len() > 0 && s[0] == '-' {
        let b = s.subrange(1, s.len() as int);
        if b.len() > 0 && all_digits(b) && digits_value(b) <= 0x8000_0000 {
            Some(-(digits_value(b) as int))
        } else {
            None
        }
    } else {
        match parse_unsigned(s, 0x7fff_ffff) {
            Some(n) => Some(n as int),
            None => None,
        }
    }
}

pub proof fn lemma_digits_value_prefix(s: Seq<char>, k: int)
    requires
        0 <= k <= s.len(),
    ensures
        digits_value(s.subrange(0, k)) <= digits_value(s),
    decreases s.len(),
{
    if k < s.len() {
        let t = s.subrange(0, s.len() - 1);
        assert(t.subrange(0, k) =~= s.subrange(0, k));
        lemma_digits_value_prefix(t, k);
    } else {
        assert(s.subrange(0, k) =~= s);
    }
}

/// The value of the digits `v[lo..hi]` when it is at most `max`.
fn digits_in(v: &Vec<char>, lo: usize, hi: usize, max: u64) -> (r: Option<u64>)
    requires
        lo <= hi <= v.len(),
        9 <= max,
    ensures
        match r {
            Some(n) => all_digits(v@.subrange(lo as int, hi as int)) && digits_value(
                v@.subrange(lo as int, hi as int),
            ) == n && n <= max,
            None => !all_digits(v@.subrange(lo as int, hi as int)) || digits_value(
                v@.subrange(lo as int, hi as int),
            ) > max,
        },
{
    let ghost s = v@.subrange(lo as int, hi as int);
    let mut acc: u64 = 0;
    let mut i = lo;
    while i < hi
        invariant
            lo <= i <= hi <= v.len(),
            9 <= max,
            s == v@.subrange(lo as int, hi as int),
            all_digits(s.subrange(0, i - lo)),
            digits_value(s.subrange(0, i - lo)) == acc,
            acc <= max,
        decreases hi - i,
    {
        let c = v[i];
        let u = c as u32;
        if u < 48 || u > 57 {
            assert(!is_digit(s[i - lo]));
            return None;
        }
        let d = (u - 48) as u64;
        let ghost p = s.subrange(0, i + 1 - lo);
        assert(p.subrange(0, p.len() - 1) =~= s.subrange(0, i - lo));
        assert(p[p.len() - 1] == c);
        if acc > (max - d) / 10 {
            assert(acc * 10 + d > max) by (nonlinear_arith)
                requires
                    acc > (max - d) / 10,
                    d <= 9,
                    9 <= max,
            ;
            proof {
                if all_digits(s) {
                    lemma_digits_value_prefix(s, i + 1 - lo);
                }
            }
            return None;
        }
        assert(acc * 10 + d <= max) by (nonlinear_arith)
            requires
                acc <= (max - d) / 10,
                d <= 9,
                9 <= max,
        ;
        acc = acc * 10 + d;
        i = i + 1;
    }
    assert(s.subrange(0, hi - lo) =~= s);
    Some(acc)
}

/// `str::parse` for an unsigned type whose largest value is `max`, on `v[lo..hi]`.
pub fn parse_unsigned_range(v: &Vec<char>, lo: usize, hi: usize, max: u64) -> (r: Option<u64>)
    requires
        lo <= hi <= v.len(),
        9 <= max,
    ensures
        match r {
            Some(n) => parse_unsigned(v@.subrange(lo as int, hi as int), max as nat) == Some(
                n as nat,
            ),
            None => parse_unsigned(v@.subrange(lo as int, hi as int), max as nat) is None,
        },
{
    let ghost s = v@.subrange(lo as int, hi as int);
    let mut start = lo;
    if lo < hi && v[lo] == '+' {
        start = lo + 1;
    }
    assert(unsigned_body(s) =~= v@.subrange(start as int, hi as int));
    if start == hi {
        return None;
    }
    digits_in(v, start, hi, max)
}

/// `str::parse::<i32>` on `v[lo..hi]`.
pub fn parse_i32_range(v: &Vec<char>, lo: usize, hi: usize) -> (r: Option<i32>)
    requires
        lo <= hi <= v.len(),
    ensures
        match r {
            Some(n) => parse_i32(v@.subrange(lo as int, hi as int)) == Some(n as int),
            None => parse_i32(v@.subrange(lo as int, hi as int)) is None,
        },
{
    let ghost s = v@.subrange(lo as int, hi as int);
    if lo < hi && v[lo] == '-' {
        assert(s.subrange(1, s.len() as int) =~= v@.subrange(lo + 1, hi as int));
        if lo + 1 == hi {
            return None;
        }
        match digits_in(v, lo + 1, hi, 0x8000_0000) {
            Some(n) => {
                if n == 0x8000_0000 {
                    Some(-2147483648i32)
                } else {
                    let m = n as i32;
                    Some(-m)
                }
            },
            None => None,
        }
    } else {
        match parse_unsigned_range(v, lo, hi, 0x7fff_ffff) {
            Some(n) => Some(n as i32),
            None => None,
        }
    }
}

/// The decimal digit for `d < 10`.
pub open spec fn digit_char(d: nat) -> char {
    seq!['0', '1', '2', '3', '4', '5', '6', '7', '8', '9'][d as int]
}

/// The decimal representation of `n`, without sign or leading zeros.
pub open spec fn decimal(n: nat) -> Seq<char>
    decreases n,
{
    if n < 10 {
        seq![digit_char(n)]
    } else {
        decimal(n / 10).push(digit_char(n % 10))
    }
}

fn digit_str(d: u64) -> (s: &'static str)
    requires
        d < 10,
    ensures
        s@ == seq![digit_char(d as nat)],
{
    proof {
        reveal_strlit("0");
        reveal_strlit("1");
        reveal_strlit("2");
        reveal_strlit("3");
        reveal_strlit("4");
        reveal_strlit("5");
        reveal_strlit("6");
        reveal_strlit("7");
        reveal_strlit("8");
        reveal_strlit("9");
    }
    let s = match d {
        0 => "0",
        1 => "1",
        2 => "2",
        3 => "3",
        4 => "4",
        5 => "5",
        6 => "6",
        7 => "7",
        8 => "8",
        _ => "9",
    };
    assert(s@ =~= seq![digit_char(d as nat)]);
    s
}

/// Appends the decimal representation of `n` to `out`.
pub fn push_decimal(out: &mut String, n: u64)
    ensures
        final(out)@ == old(out)@ + decimal(n as nat),
    decreases n,
{
    if n >= 10 {
        push_decimal(out, n / 10);
    }
    out.append(digit_str(n % 10));
    assert(final(out)@ =~= old(out)@ + decimal(n as nat));
}

/// The decimal representation of `n`, as `n.to_string()` writes it.
pub fn decimal_string(n: u64) -> (s: String)
    ensures
        s@ == decimal(n as nat),
{
    let mut s = String::new();
    push_decimal(&mut s, n);
    assert(s@ =~= decimal(n as nat));
    s
}

pub proof fn lemma_digit_char(d: nat)
    requires
        d < 10,
    ensures
        is_digit(digit_char(d)),
        digit_value(digit_char(d)) == d,
{
    let ds = seq!['0', '1', '2', '3', '4', '5', '6', '7', '8', '9'];
    assert(ds[0] == '0' && ds[1] == '1' && ds[2] == '2' && ds[3] == '3' && ds[4] == '4');
    assert(ds[5] == '5' && ds[6] == '6' && ds[7] == '7' && ds[8] == '8' && ds[9] == '9');
}

pub proof fn lemma_decimal_digits(n: nat)
    ensures
        decimal(n).len() > 0,
        all_digits(decimal(n)),
        digits_value(decimal(n)) == n,
        decimal(n)[0] != '+' && decimal(n)[0] != '-',
    decreases n,
{
    lemma_digit_char(n % 10);
    if n < 10 {
        let q = decimal(n);
        assert(q.subrange(0, q.len() - 1) =~= Seq::<char>::empty());
        assert(digits_value(Seq::<char>::empty()) == 0);
        assert(digits_value(q) == digits_value(q.subrange(0, q.len() - 1)) * 10 + digit_value(
            q[q.len() - 1],
        ));
    }
    if n >= 10 {
        lemma_decimal_digits(n / 10);
        let p = decimal(n / 10);
        let q = p.push(digit_char(n % 10));
        assert(q.subrange(0, q.len() - 1) =~= p);
        assert(digits_value(q) == digits_value(p) * 10 + digit_value(q[q.len() - 1]));
        assert(n == (n / 10) * 10 + n % 10);
        assert forall|i: int| 0 <= i < q.len() implies is_digit(q[i]) by {
            if i < p.len() {
                assert(q[i] == p[i]);
            }
        }
    }
}

/// Reading back a written decimal gives the number again.
pub proof fn lemma_parse_decimal(n: nat, max: nat)
    requires
        n <= max,
    ensures
        parse_unsigned(decimal(n), max) == Some(n),
{
    lemma_decimal_digits(n);
}


/// A text that neither starts nor ends with whitespace is its own trim.
pub proof fn lemma_trim_unchanged(s: Seq<char>)
    requires
        s.len() == 0 || (!is_ws(s[0]) && !is_ws(s[s.len() - 1])),
    ensures
        trim(s) == s,
{
}

/// Digits are neither whitespace nor line breaks nor `=`.
pub proof fn lemma_decimal_plain(n: nat)
    ensures
        forall|i: int|
            0 <= i < decimal(n).len() ==> !is_ws(#[trigger] decimal(n)[i]) && decimal(n)[i]
                != '\n' && decimal(n)[i] != '=' && decimal(n)[i] != '#',
        trim(decimal(n)) == decimal(n),
{
    lemma_decimal_digits(n);
    lemma_trim_unchanged(decimal(n));
}

/// Whether two strings hold the same text.
pub fn strings_equal(a: &String, b: &String) -> (r: bool)
    ensures
        r == (a@ == b@),
{
    a.eq(b)
}

/// The decimal representation of a signed number, with `-` before a
/// negative one.
pub open spec fn signed_decimal(n: int) -> Seq<char> {
    if n < 0 {
        seq!['-'] + decimal((-n) as nat)
    } else {
        decimal(n as nat)
    }
}

/// The decimal representation of `n`, as `n.to_string()` writes it.
pub fn signed_decimal_string(n: i32) -> (s: String)
    ensures
        s@ == signed_decimal(n as int),
{
    let mut s = String::new();
    if n < 0 {
        s.append("-");
        proof {
            reveal_strlit("-");
        }
        let m: u64 = if n == i32::MIN {
            2147483648u64
        } else {
            (-n) as u64
        };
        push_decimal(&mut s, m);
    } else {
        push_decimal(&mut s, n as u64);
    }
    assert(s@ =~= signed_decimal(n as int));
    s
}

/// The pieces of `s` between line breaks (`\n`), in order; a text that
/// ends in a line break has an empty last piece.
pub open spec fn split_lines(s: Seq<char>) -> Seq<Seq<char>>
    decreases s.len(),
{
    let nl = index_of(s, '\n');
    if nl < s.len() {
        seq![s.subrange(0, nl as int)] + split_lines(s.subrange(nl as int + 1, s.len() as int))
    } else {
        seq![s]
    }
}

/// The bounds of the pieces of `v` between line breaks.
pub fn line_ranges(v: &Vec<char>) -> (r: Vec<(usize, usize)>)
    ensures
        r.len() == split_lines(v@).len(),
        forall|i: int|
            0 <= i < r.len() ==> (#[trigger] r@[i]).0 <= r@[i].1 <= v.len() && v@.subrange(
                r@[i].0 as int,
                r@[i].1 as int,
            ) == split_lines(v@)[i],
{
    let mut r: Vec<(usize, usize)> = Vec::new();
    let mut pos: usize = 0;
    assert(v@.subrange(0, v.len() as int) =~= v@);
    loop
        invariant
            pos <= v.len(),
            forall|i: int| 0 <= i < r.len() ==> (#[trigger] r@[i]).0 <= r@[i].1 <= v.len(),
            r@.map_values(|p: (usize, usize)| v@.subrange(p.0 as int, p.1 as int)) + split_lines(
                v@.subrange(pos as int, v.len() as int),
            ) == split_lines(v@),
        decreases v.len() - pos,
    {
        let ghost s = v@.subrange(pos as int, v.len() as int);
        let ghost before = r@;
        let nl = find_char(v, pos, v.len(), '\n');
        proof {
            lemma_index_of_bounds(s, '\n');
            assert(s.subrange(0, nl - pos) =~= v@.subrange(pos as int, nl as int));
        }
        r.push((pos, nl));
        if nl == v.len() {
            proof {
                let m = r@.map_values(|p: (usize, usize)| v@.subrange(p.0 as int, p.1 as int));
                assert(m =~= before.map_values(|p: (usize, usize)| v@.subrange(p.0 as int, p.1 as int)) + seq![s]);
                assert(m =~= split_lines(v@));
                assert forall|i: int| 0 <= i < r.len() implies v@.subrange((#[trigger] r@[i]).0 as int, r@[i].1 as int) == split_lines(v@)[i] by {
                    assert(m[i] == v@.subrange(r@[i].0 as int, r@[i].1 as int));
                }
            }
            return r;
        }
        proof {
            assert(s.subrange(nl - pos + 1, s.len() as int) =~= v@.subrange(nl + 1, v.len() as int));
            let m = r@.map_values(|p: (usize, usize)| v@.subrange(p.0 as int, p.1 as int));
            assert(m =~= before.map_values(|p: (usize, usize)| v@.subrange(p.0 as int, p.1 as int)) + seq![v@.subrange(pos as int, nl as int)]);
            assert(m + split_lines(v@.subrange(nl + 1, v.len() as int)) =~= before.map_values(|p: (usize, usize)| v@.subrange(p.0 as int, p.1 as int)) + split_lines(s));
        }
        pos = nl + 1;
    }
}

/// Position of the first occurrence of `pat` in `s`, or `s.len()` where
/// there is none.
pub open spec fn find_text(s: Seq<char>, pat: Seq<char>) -> nat
    decreases s.len(),
{
    if s.len() == 0 || s.len() < pat.len() {
        s.len()
    } else if s.subrange(0, pat.len() as int) == pat {
        0
    } else {
        1 + find_text(s.subrange(1, s.len() as int), pat)
    }
}

pub proof fn lemma_find_text_bounds(s: Seq<char>, pat: Seq<char>)
    ensures
        find_text(s, pat) <= s.len(),
        find_text(s, pat) < s.len() ==> find_text(s, pat) + pat.len() <= s.len() && s.subrange(
            find_text(s, pat) as int,
            find_text(s, pat) as int + pat.len(),
        ) == pat,
    decreases s.len(),
{
    if s.len() > 0 && s.len() >= pat.len() && s.subrange(0, pat.len() as int) != pat {
        let t = s.subrange(1, s.len() as int);
        lemma_find_text_bounds(t, pat);
        let k = find_text(t, pat);
        if k < t.len() {
            assert(t.subrange(k as int, k as int + pat.len()) =~= s.subrange(k as int + 1, k as int + 1 + pat.len()));
        }
    }
}

/// The first position `p` in `lo..hi` where `v[p..]` starts with `pat`, or
/// `hi`.
pub fn find_str(v: &Vec<char>, lo: usize, hi: usize, pat: &str) -> (r: usize)
    requires
        lo <= hi <= v.len(),
    ensures
        r == lo + find_text(v@.subrange(lo as int, hi as int), pat@),
        lo <= r <= hi,
{
    let w = chars_of(pat);
    let mut i = lo;
    proof {
        assert(v@.subrange(lo as int, hi as int) =~= v@.subrange(i as int, hi as int));
    }
    loop
        invariant
            lo <= i <= hi <= v.len(),
            w@ == pat@,
            lo + find_text(v@.subrange(lo as int, hi as int), pat@) == i + find_text(
                v@.subrange(i as int, hi as int),
                pat@,
            ),
        decreases hi - i,
    {
        let ghost s = v@.subrange(i as int, hi as int);
        if i == hi || hi - i < w.len() {
            return hi;
        }
        if range_eq(v, i, i + w.len(), pat) {
            assert(s.subrange(0, pat@.len() as int) =~= v@.subrange(i as int, i + w.len()));
            return i;
        }
        assert(s.subrange(0, pat@.len() as int) =~= v@.subrange(i as int, i + w.len()));
        assert(s.subrange(1, s.len() as int) =~= v@.subrange(i + 1, hi as int));
        i = i + 1;
    }
}

/// `s` with every occurrence of `from` replaced by `to`, left to right, as
/// `str::replace` does.
pub open spec fn replace_all(s: Seq<char>, from: Seq<char>, to: Seq<char>) -> Seq<char>
    decreases s.len(),
{
    let p = find_text(s, from);
    if from.len() == 0 || p >= s.len() {
        s
    } else {
        proof {
            lemma_find_text_bounds(s, from);
        }
        s.subrange(0, p as int) + to + replace_all(
            s.subrange(p as int + from.len(), s.len() as int),
            from,
            to,
        )
    }
}

/// `s` with every occurrence of `from` (not empty) replaced by `to`.
pub fn replace(s: &str, from: &str, to: &str) -> (r: String)
    requires
        from@.len() > 0,
    ensures
        r@ == replace_all(s@, from@, to@),
{
    let v = chars_of(s);
    let n = from.unicode_len();
    let mut out = String::new();
    let mut pos: usize = 0;
    assert(v@.subrange(0, v.len() as int) =~= s@);
    loop
        invariant
            v@ == s@,
            n == from@.len(),
            n > 0,
            pos <= v.len(),
            out@ + replace_all(v@.subrange(pos as int, v.len() as int), from@, to@) == replace_all(
                s@,
                from@,
                to@,
            ),
        decreases v.len() - pos,
    {
        let ghost rest = v@.subrange(pos as int, v.len() as int);
        let p = find_str(&v, pos, v.len(), from);
        proof {
            lemma_find_text_bounds(rest, from@);
        }
        if p == v.len() {
            out.append(s.substring_char(pos, v.len()));
            assert(out@ =~= replace_all(s@, from@, to@));
            return out;
        }
        let ghost out_before = out@;
        out.append(s.substring_char(pos, p));
        out.append(to);
        proof {
            assert(rest.subrange(0, p - pos) =~= v@.subrange(pos as int, p as int));
            assert(rest.subrange(p - pos + n, rest.len() as int) =~= v@.subrange(p + n, v.len() as int));
            assert(replace_all(rest, from@, to@) == rest.subrange(0, p - pos) + to@ + replace_all(
                v@.subrange(p + n, v.len() as int),
                from@,
                to@,
            ));
            assert(out@ + replace_all(v@.subrange(p + n, v.len() as int), from@, to@) =~= out_before
                + replace_all(rest, from@, to@));
        }
        pos = p + n;
    }
}

/// `String::push` appends one character (std's documentation: "Appends the
/// given char to the end of this String").
pub assume_specification[ std::string::String::push ](string: &mut String, ch: char)
    ensures
        final(string)@ == old(string)@.push(ch),
;

/// A line without the carriage return that ends it, if any.
pub open spec fn strip_cr(l: Seq<char>) -> Seq<char> {
    if l.len() > 0 && l[l.len() - 1] == '\r' {
        l.subrange(0, l.len() - 1)
    } else {
        l
    }
}

pub proof fn lemma_split_lines_nonempty(s: Seq<char>)
    ensures
        split_lines(s).len() >= 1,
    decreases s.len(),
{
    let nl = index_of(s, '\n');
    if nl < s.len() {
        lemma_index_of_bounds(s, '\n');
        lemma_split_lines_nonempty(s.subrange(nl as int + 1, s.len() as int));
    }
}

/// The lines of a text as `str::lines` yields them: the pieces between
/// line breaks, a `\r` just before a break dropped, and no empty piece
/// after the last break.
pub open spec fn text_lines(s: Seq<char>) -> Seq<Seq<char>> {
    let p = split_lines(s);
    let body = p.subrange(0, p.len() - 1).map_values(|l: Seq<char>| strip_cr(l));
    if p[p.len() - 1].len() == 0 {
        body
    } else {
        body.push(p[p.len() - 1])
    }
}

/// The lines of `text`, as `text_lines` states them.
pub fn lines_of(text: &str) -> (r: Vec<String>)
    ensures
        crate::runtime::texts(r@) == text_lines(text@),
{
    let v = chars_of(text);
    let ranges = crate::text::line_ranges(&v);
    proof {
        lemma_split_lines_nonempty(v@);
    }
    let ghost p = split_lines(v@);
    let n = ranges.len();
    let mut r: Vec<String> = Vec::new();
    let mut i: usize = 0;
    while i + 1 < n
        invariant
            n == ranges.len(),
            n == p.len(),
            n >= 1,
            p == split_lines(v@),
            v@ == text@,
            0 <= i < n,
            r.len() == i,
            forall|j: int| 0 <= j < i ==> (#[trigger] r@[j])@ == strip_cr(p[j]),
            forall|j: int|
                0 <= j < ranges.len() ==> (#[trigger] ranges@[j]).0 <= ranges@[j].1 <= v.len()
                    && v@.subrange(ranges@[j].0 as int, ranges@[j].1 as int) == p[j],
        decreases n - i,
    {
        let (lo, hi) = ranges[i];
        let ghost l = v@.subrange(lo as int, hi as int);
        assert(l == p[i as int]);
        if lo < hi && v[hi - 1] == '\r' {
            assert(v@.subrange(lo as int, hi - 1) =~= l.subrange(0, l.len() - 1));
            r.push(substring(text, lo, hi - 1));
        } else {
            r.push(substring(text, lo, hi));
        }
        i = i + 1;
    }
    let (lo, hi) = ranges[n - 1];
    if lo < hi {
        r.push(substring(text, lo, hi));
    }
    assert(crate::runtime::texts(r@) =~= text_lines(text@));
    r
}

/// A text without line breaks.
pub open spec fn no_newline(s: Seq<char>) -> bool {
    forall|i: int| 0 <= i < s.len() ==> s[i] != '\n'
}

/// A setting name that reads back as written: not empty, no whitespace at
/// its ends, no `=` or line break, and not the start of a comment.
pub open spec fn clean_key(k: Seq<char>) -> bool {
    &&& k.len() > 0
    &&& !is_ws(k[0])
    &&& !is_ws(k[k.len() - 1])
    &&& k[0] != '#'
    &&& forall|i: int| 0 <= i < k.len() ==> k[i] != '=' && k[i] != '\n'
}

/// A value that reads back as written: no line break and no whitespace at
/// its ends.
pub open spec fn clean_value(v: Seq<char>) -> bool {
    &&& no_newline(v)
    &&& v.len() > 0 ==> !is_ws(v[0]) && !is_ws(v[v.len() - 1])
}

} // verus!
