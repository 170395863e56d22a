//! Canonical `HH:MM:SS.SSS` form of a request's time-of-day parameter.
//!
//! The at-time endpoints expect an Eastern wall-clock time such as
//! `"09:30:00.000"`. A millisecond-of-day string (`"34200000"`) and the
//! short forms `HH:MM`, `HH:MM:SS` and `HH:MM:SS.f` (one to three fraction
//! digits) are rewritten to that form; anything else, including out-of-range
//! fields, is passed through unchanged so the server reports its own
//! validation error. Each numeric field reads as an unsigned decimal integer
//! would: digits with an optional leading `+`, no larger than `u64::MAX`.

use vstd::prelude::*;

use crate::table::{lemma_pow10_mono, pow10};
use crate::text::{ascii_chars, ascii_string, chars_of, digit_char};

verus! {

/// Whether `c` is an ASCII decimal digit.
pub open spec fn is_digit(c: char) -> bool {
    '0' <= c && c <= '9'
}

/// Whether every character of `s` is a digit (true of the empty string).
pub open spec fn all_digits(s: Seq<char>) -> bool {
    forall|i: int| 0 <= i < s.len() ==> is_digit(#[trigger] s[i])
}

/// The value of a string of digits.
pub open spec fn digits_value(s: Seq<char>) -> nat
    decreases s.len(),
{
    if s.len() == 0 {
        0
    } else {
        digits_value(s.drop_last()) * 10 + ((s.last() as int - 48) as nat)
    }
}

/// An unsigned decimal integer: an optional `+`, then at least one digit,
/// with a value that fits `u64`.
pub open spec fn parse_u64(s: Seq<char>) -> Option<nat> {
    let body = if s.len() > 0 && s[0] == '+' {
        s.skip(1)
    } else {
        s
    };
    if body.len() > 0 && all_digits(body) && digits_value(body) <= u64::MAX {
        Some(digits_value(body))
    } else {
        None
    }
}

/// Whether `i` is the first position of `c` in `s`.
pub open spec fn is_first_pos(s: Seq<char>, c: char, i: int) -> bool {
    0 <= i < s.len() && s[i] == c && forall|j: int| 0 <= j < i ==> s[j] != c
}

/// The first position of `c` in `s`, if any.
pub open spec fn first_pos(s: Seq<char>, c: char) -> Option<int> {
    if s.contains(c) {
        Some(choose|i: int| is_first_pos(s, c, i))
    } else {
        None
    }
}

/// Milliseconds a fraction of one to three digits stands for.
pub open spec fn frac_millis(f: Seq<char>) -> Option<nat> {
    if 1 <= f.len() <= 3 {
        match parse_u64(f) {
            Some(v) => Some(
                if f.len() == 1 {
                    v * 100
                } else if f.len() == 2 {
                    v * 10
                } else {
                    v
                },
            ),
            None => None,
        }
    } else {
        None
    }
}

/// Seconds and milliseconds of an `SS` or `SS.f` field.
pub open spec fn seconds_field(t: Seq<char>) -> Option<(nat, nat)> {
    match first_pos(t, '.') {
        Some(k) => match (parse_u64(t.take(k)), frac_millis(t.skip(k + 1))) {
            (Some(sec), Some(ms)) => Some((sec, ms)),
            _ => None,
        },
        None => match parse_u64(t) {
            Some(sec) => Some((sec, 0)),
            None => None,
        },
    }
}

/// Hours, minutes, seconds and milliseconds of `HH:MM`, `HH:MM:SS` or
/// `HH:MM:SS.f`, before any range check.
pub open spec fn clock_fields(s: Seq<char>) -> Option<(nat, nat, nat, nat)> {
    match first_pos(s, ':') {
        None => None,
        Some(i) => {
            let rest = s.skip(i + 1);
            let minutes_text = match first_pos(rest, ':') {
                Some(j) => rest.take(j),
                None => rest,
            };
            match (parse_u64(s.take(i)), parse_u64(minutes_text)) {
                (Some(h), Some(m)) => match first_pos(rest, ':') {
                    None => Some((h, m, 0, 0)),
                    Some(j) => {
                        let tail = rest.skip(j + 1);
                        if tail.contains(':') {
                            None
                        } else {
                            match seconds_field(tail) {
                                Some((sec, ms)) => Some((h, m, sec, ms)),
                                None => None,
                            }
                        }
                    },
                },
                _ => None,
            }
        },
    }
}

/// Two zero-padded digits of `n < 100`.
pub open spec fn two_digits(n: nat) -> Seq<char> {
    seq![digit_char((n / 10) as int), digit_char((n % 10) as int)]
}

/// Three zero-padded digits of `n < 1000`.
pub open spec fn three_digits(n: nat) -> Seq<char> {
    seq![digit_char((n / 100) as int), digit_char(((n / 10) % 10) as int), digit_char((n % 10) as int)]
}

/// `HH:MM:SS.SSS`.
pub open spec fn clock_text(h: nat, m: nat, s: nat, ms: nat) -> Seq<char> {
    two_digits(h) + seq![':'] + two_digits(m) + seq![':'] + two_digits(s) + seq!['.'] + three_digits(ms)
}

/// The canonical form of a time-of-day parameter, or the input itself when
/// it is not a valid time of day.
pub open spec fn spec_normalize_time_of_day(s: Seq<char>) -> Seq<char> {
    if all_digits(s) {
        match parse_u64(s) {
            Some(t) => if t < 86_400_000 {
                clock_text(t / 3_600_000, (t % 3_600_000) / 60_000, (t % 60_000) / 1_000, t % 1_000)
            } else {
                s
            },
            None => s,
        }
    } else {
        match clock_fields(s) {
            Some((h, m, sec, ms)) => if h < 24 && m < 60 && sec < 60 && ms < 1_000 {
                clock_text(h, m, sec, ms)
            } else {
                s
            },
            None => s,
        }
    }
}

/// A longer digit string is worth at least as much as its prefix.
proof fn lemma_digits_value_prefix(s: Seq<char>, k: int)
    requires
        0 <= k <= s.len(),
        all_digits(s),
    ensures
        digits_value(s.take(k)) <= digits_value(s),
    decreases s.len(),
{
    if k < s.len() {
        let d = s.drop_last();
        assert(all_digits(d)) by {
            assert forall|i: int| 0 <= i < d.len() implies is_digit(#[trigger] d[i]) by {
                assert(d[i] == s[i]);
            }
        }
        lemma_digits_value_prefix(d, k);
        assert(d.take(k) =~= s.take(k));
        assert(is_digit(s[s.len() - 1]));
    } else {
        assert(s.take(k) =~= s);
    }
}

/// Parse the characters `v[lo..hi]` as an unsigned decimal integer.
fn parse_u64_at(v: &Vec<char>, lo: usize, hi: usize) -> (r: Option<u64>)
    requires
        lo <= hi <= v@.len(),
    ensures
        match r {
            Some(x) => parse_u64(v@.subrange(lo as int, hi as int)) == Some(x as nat),
            None => parse_u64(v@.subrange(lo as int, hi as int)) is None,
        },
{
    let ghost s = v@.subrange(lo as int, hi as int);
    let mut start = lo;
    if lo < hi && v[lo] == '+' {
        start = lo + 1;
    }
    let ghost body = v@.subrange(start as int, hi as int);
    assert(body =~= if s.len() > 0 && s[0] == '+' {
        s.skip(1)
    } else {
        s
    });
    if start >= hi {
        return None;
    }
    let mut acc: u64 = 0;
    let mut k: usize = start;
    while k < hi
        invariant
            lo <= start <= k <= hi <= v@.len(),
            s == v@.subrange(lo as int, hi as int),
            body == v@.subrange(start as int, hi as int),
            body == if s.len() > 0 && s[0] == '+' {
                s.skip(1)
            } else {
                s
            },
            body.len() > 0,
            all_digits(body.take(k - start)),
            acc == digits_value(body.take(k - start)),
        decreases hi - k,
    {
        let c = v[k];
        if !('0' <= c && c <= '9') {
            assert(body[k - start] == c);
            assert(!all_digits(body));
            return None;
        }
        let d = (c as u32 - 48) as u64;
        let ghost next = body.take(k - start + 1);
        assert(next.drop_last() =~= body.take(k - start));
        assert(next.last() == body[k - start]);
        assert(all_digits(next)) by {
            assert forall|i: int| 0 <= i < next.len() implies is_digit(#[trigger] next[i]) by {
                if i < next.len() - 1 {
                    assert(next[i] == body.take(k - start)[i]);
                }
            }
        }
        if acc > (u64::MAX - d) / 10 {
            proof {
                assert(digits_value(next) > u64::MAX) by (nonlinear_arith)
                    requires
                        digits_value(next) == acc * 10 + d,
                        acc > (u64::MAX - d) / 10,
                        d <= 9,
                ;
                if all_digits(body) {
                    lemma_digits_value_prefix(body, k - start + 1);
                }
            }
            return None;
        }
        proof {
            assert(acc * 10 + d <= u64::MAX) by (nonlinear_arith)
                requires
                    acc <= (u64::MAX - d) / 10,
                    d <= 9,
            ;
        }
        acc = acc * 10 + d;
        k = k + 1;
    }
    assert(body.take(hi - start) =~= body);
    Some(acc)
}

/// The first position of `c` in `v[lo..hi]`, relative to `lo`.
fn find_char(v: &Vec<char>, lo: usize, hi: usize, c: char) -> (r: Option<usize>)
    requires
        lo <= hi <= v@.len(),
    ensures
        match r {
            Some(i) => first_pos(v@.subrange(lo as int, hi as int), c) == Some(i as int) && i < hi - lo,
            None => first_pos(v@.subrange(lo as int, hi as int), c) is None,
        },
{
    let ghost s = v@.subrange(lo as int, hi as int);
    let mut k: usize = lo;
    while k < hi
        invariant
            lo <= k <= hi <= v@.len(),
            s == v@.subrange(lo as int, hi as int),
            forall|j: int| 0 <= j < k - lo ==> s[j] != c,
        decreases hi - k,
    {
        if v[k] == c {
            proof {
                assert(is_first_pos(s, c, k - lo));
                assert(s.contains(c));
                let w = choose|w: int| is_first_pos(s, c, w);
                if w < k - lo {
                    assert(s[w] != c);
                } else if w > k - lo {
                    assert(s[k - lo] != c);
                }
            }
            return Some(k - lo);
        }
        k = k + 1;
    }
    proof {
        if s.contains(c) {
            let j = choose|j: int| 0 <= j < s.len() && s[j] == c;
            assert(s[j] != c);
        }
    }
    None
}

/// A string of `n` digits is worth less than `10^n`.
proof fn lemma_digits_value_bound(s: Seq<char>)
    requires
        all_digits(s),
    ensures
        digits_value(s) < pow10(s.len()),
    decreases s.len(),
{
    if s.len() > 0 {
        let d = s.drop_last();
        assert(all_digits(d)) by {
            assert forall|i: int| 0 <= i < d.len() implies is_digit(#[trigger] d[i]) by {
                assert(d[i] == s[i]);
            }
        }
        lemma_digits_value_bound(d);
        assert(is_digit(s[s.len() - 1]));
        assert(pow10(s.len()) == 10 * pow10(d.len()));
    }
}

/// A parsed field of at most three characters is below 1000.
proof fn lemma_short_field(f: Seq<char>)
    requires
        f.len() <= 3,
        parse_u64(f) is Some,
    ensures
        parse_u64(f)->0 < 1000,
{
    let body = if f.len() > 0 && f[0] == '+' {
        f.skip(1)
    } else {
        f
    };
    lemma_digits_value_bound(body);
    lemma_pow10_mono(body.len(), 3);
    reveal_with_fuel(pow10, 4);
}

/// Whether every character of `v` is a digit.
fn all_digit_chars(v: &Vec<char>) -> (r: bool)
    ensures
        r == all_digits(v@),
{
    let mut i: usize = 0;
    while i < v.len()
        invariant
            i <= v@.len(),
            forall|j: int| 0 <= j < i ==> is_digit(#[trigger] v@[j]),
        decreases v@.len() - i,
    {
        if !('0' <= v[i] && v[i] <= '9') {
            assert(!is_digit(v@[i as int]));
            return false;
        }
        i = i + 1;
    }
    true
}

/// `HH:MM:SS.SSS` for fields already in range.
fn clock_string(h: u64, m: u64, sec: u64, ms: u64) -> (r: String)
    requires
        h < 100,
        m < 100,
        sec < 100,
        ms < 1000,
    ensures
        r@ == clock_text(h as nat, m as nat, sec as nat, ms as nat),
{
    let mut b: Vec<u8> = Vec::new();
    b.push((h / 10) as u8 + 48);
    b.push((h % 10) as u8 + 48);
    b.push(58u8);
    b.push((m / 10) as u8 + 48);
    b.push((m % 10) as u8 + 48);
    b.push(58u8);
    b.push((sec / 10) as u8 + 48);
    b.push((sec % 10) as u8 + 48);
    b.push(46u8);
    b.push((ms / 100) as u8 + 48);
    b.push(((ms / 10) % 10) as u8 + 48);
    b.push((ms % 10) as u8 + 48);
    assert(ascii_chars(b@) =~= clock_text(h as nat, m as nat, sec as nat, ms as nat));
    ascii_string(b)
}

/// Canonicalize a time-of-day parameter to `HH:MM:SS.SSS`: a
/// millisecond-of-day below 24 hours, or `HH:MM[:SS[.f]]` with every field
/// in range; any other input comes back unchanged.
pub fn normalize_time_of_day(time_of_day: &str) -> (r: String)
    ensures
        r@ == spec_normalize_time_of_day(time_of_day@),
{
    let v = chars_of(time_of_day);
    let n = v.len();
    let ghost s = v@;
    assert(v@.subrange(0, n as int) =~= s);
    if all_digit_chars(&v) {
        return match parse_u64_at(&v, 0, n) {
            Some(t) => if t < 86_400_000 {
                clock_string(t / 3_600_000, (t % 3_600_000) / 60_000, (t % 60_000) / 1_000, t % 1_000)
            } else {
                time_of_day.to_owned()
            },
            None => time_of_day.to_owned(),
        };
    }
    let i = match find_char(&v, 0, n, ':') {
        Some(i) => i,
        None => return time_of_day.to_owned(),
    };
    let rest_lo = i + 1;
    let ghost rest = s.skip(rest_lo as int);
    assert(v@.subrange(rest_lo as int, n as int) =~= rest);
    assert(v@.subrange(0, i as int) =~= s.take(i as int));
    let j_opt = find_char(&v, rest_lo, n, ':');
    let min_hi = match j_opt {
        Some(j) => rest_lo + j,
        None => n,
    };
    proof {
        match j_opt {
            Some(j) => assert(v@.subrange(rest_lo as int, min_hi as int) =~= rest.take(j as int)),
            None => {},
        }
    }
    let h = match parse_u64_at(&v, 0, i) {
        Some(h) => h,
        None => return time_of_day.to_owned(),
    };
    let m = match parse_u64_at(&v, rest_lo, min_hi) {
        Some(m) => m,
        None => return time_of_day.to_owned(),
    };
    let (sec, ms): (u64, u64) = match j_opt {
        None => (0, 0),
        Some(j) => {
            let tail_lo = rest_lo + j + 1;
            let ghost tail = rest.skip(j + 1);
            assert(v@.subrange(tail_lo as int, n as int) =~= tail);
            if find_char(&v, tail_lo, n, ':').is_some() {
                return time_of_day.to_owned();
            }
            match find_char(&v, tail_lo, n, '.') {
                Some(k) => {
                    assert(v@.subrange(tail_lo as int, (tail_lo + k) as int) =~= tail.take(k as int));
                    let sec = match parse_u64_at(&v, tail_lo, tail_lo + k) {
                        Some(x) => x,
                        None => return time_of_day.to_owned(),
                    };
                    let f_lo = tail_lo + k + 1;
                    assert(v@.subrange(f_lo as int, n as int) =~= tail.skip(k + 1));
                    let flen = n - f_lo;
                    if flen < 1 || flen > 3 {
                        return time_of_day.to_owned();
                    }
                    let f = match parse_u64_at(&v, f_lo, n) {
                        Some(x) => x,
                        None => return time_of_day.to_owned(),
                    };
                    proof {
                        lemma_short_field(tail.skip(k + 1));
                    }
                    let ms = if flen == 1 {
                        f * 100
                    } else if flen == 2 {
                        f * 10
                    } else {
                        f
                    };
                    (sec, ms)
                },
                None => match parse_u64_at(&v, tail_lo, n) {
                    Some(x) => (x, 0),
                    None => return time_of_day.to_owned(),
                },
            }
        },
    };
    if h < 24 && m < 60 && sec < 60 && ms < 1_000 {
        clock_string(h, m, sec, ms)
    } else {
        time_of_day.to_owned()
    }
}

/// The first position of `c` is the one position that is first.
proof fn lemma_first_pos_at(s: Seq<char>, c: char, i: int)
    requires
        is_first_pos(s, c, i),
    ensures
        first_pos(s, c) == Some(i),
{
    assert(s.contains(c));
    let k = choose|k: int| is_first_pos(s, c, k);
    assert(is_first_pos(s, c, k));
    if k < i {
        assert(s[k] != c);
    } else if k > i {
        assert(s[i] != c);
    }
}

/// Zero-padded digits read back as the number they were written from.
proof fn lemma_padded_digits_parse(n: nat)
    requires
        n < 1000,
    ensures
        n < 100 ==> all_digits(two_digits(n)) && parse_u64(two_digits(n)) == Some(n),
        all_digits(three_digits(n)) && parse_u64(three_digits(n)) == Some(n),
{
    let d2 = n / 100;
    let d1 = (n / 10) % 10;
    let d0 = n % 10;
    assert(digit_char(d2 as int) as int == d2 + 48);
    assert(digit_char(d1 as int) as int == d1 + 48);
    assert(digit_char(d0 as int) as int == d0 + 48);
    assert(digit_char((n / 10) as int) as int == n / 10 + 48) by {
        if n < 100 {
            assert(n / 10 < 10);
        }
    }
    let a = two_digits(n);
    if n < 100 {
        let a1 = a.drop_last();
        assert(a1 =~= seq![digit_char((n / 10) as int)]);
        assert(a1.drop_last() =~= Seq::<char>::empty());
        assert(digits_value(a1.drop_last()) == 0);
        assert(digits_value(a1) == n / 10);
        assert(digits_value(a) == (n / 10) * 10 + n % 10);
        assert(digits_value(a) == n);
    }
    let b = three_digits(n);
    let b1 = b.drop_last();
    let b2 = b1.drop_last();
    assert(b1 =~= seq![digit_char(d2 as int), digit_char(d1 as int)]);
    assert(b2 =~= seq![digit_char(d2 as int)]);
    assert(b2.drop_last() =~= Seq::<char>::empty());
    assert(digits_value(b2.drop_last()) == 0);
    assert(digits_value(b2) == d2);
    assert(digits_value(b1) == d2 * 10 + d1);
    assert(digits_value(b) == (d2 * 10 + d1) * 10 + d0);
    assert(digits_value(b) == n);
}

/// The canonical text of an in-range time of day normalizes to itself.
proof fn lemma_canonical_is_fixed(h: nat, m: nat, sec: nat, ms: nat)
    requires
        h < 24,
        m < 60,
        sec < 60,
        ms < 1_000,
    ensures
        spec_normalize_time_of_day(clock_text(h, m, sec, ms)) == clock_text(h, m, sec, ms),
{
    let t = clock_text(h, m, sec, ms);
    lemma_padded_digits_parse(h);
    lemma_padded_digits_parse(m);
    lemma_padded_digits_parse(sec);
    lemma_padded_digits_parse(ms);
    assert(t.len() == 12);
    assert(!is_digit(t[2]));
    assert(!all_digits(t));
    assert(is_first_pos(t, ':', 2));
    lemma_first_pos_at(t, ':', 2);
    assert(t.take(2) =~= two_digits(h));
    let rest = t.skip(3);
    assert(is_first_pos(rest, ':', 2));
    lemma_first_pos_at(rest, ':', 2);
    assert(rest.take(2) =~= two_digits(m));
    let tail = rest.skip(3);
    assert(!tail.contains(':')) by {
        if tail.contains(':') {
            let k = choose|k: int| 0 <= k < tail.len() && tail[k] == ':';
            assert(tail[k] == t[k + 6]);
        }
    }
    assert(is_first_pos(tail, '.', 2));
    lemma_first_pos_at(tail, '.', 2);
    assert(tail.take(2) =~= two_digits(sec));
    assert(tail.skip(3) =~= three_digits(ms));
    assert(clock_fields(t) == Some((h, m, sec, ms)));
}

/// Whether `t` is `HH:MM:SS.SSS` text of an in-range time of day.
pub open spec fn is_canonical_time(t: Seq<char>) -> bool {
    exists|h: nat, m: nat, sec: nat, ms: nat|
        h < 24 && m < 60 && sec < 60 && ms < 1_000 && t == #[trigger] clock_text(h, m, sec, ms)
}

/// Normalizing gives back either the input unchanged or the canonical text
/// of an in-range time of day, and normalizing twice is normalizing once: a
/// canonical time stays canonical, and a value passed through unchanged is
/// passed through again.
pub proof fn normalize_is_idempotent(s: Seq<char>)
    ensures
        spec_normalize_time_of_day(s) == s || is_canonical_time(spec_normalize_time_of_day(s)),
        spec_normalize_time_of_day(spec_normalize_time_of_day(s)) == spec_normalize_time_of_day(s),
{
    if all_digits(s) {
        if let Some(t) = parse_u64(s) {
            if t < 86_400_000 {
                lemma_canonical_is_fixed(
                    t / 3_600_000,
                    (t % 3_600_000) / 60_000,
                    (t % 60_000) / 1_000,
                    t % 1_000,
                );
            }
        }
    } else {
        if let Some((h, m, sec, ms)) = clock_fields(s) {
            if h < 24 && m < 60 && sec < 60 && ms < 1_000 {
                lemma_canonical_is_fixed(h, m, sec, ms);
            }
        }
    }
}

} // verus!
