//! Fixed-point values with six decimals (millionths) as decimal text, and the trimming that
//! ReplayGain tags need.
use vstd::prelude::*;

use crate::numtext::{all_digits, decimal, digit_char, digit_value, digits_value, is_digit, push_decimal};
use crate::text::push_char;

verus! {

/// One million: the scale of the fixed-point values.
pub const SCALE: u64 = 1_000_000;

/// The magnitude of a signed value.
pub open spec fn magnitude(v: i64) -> nat {
    if v < 0 {
        (-(v as int)) as nat
    } else {
        v as nat
    }
}

/// The last `width` decimal digits of `n`, zero-padded.
pub open spec fn padded(n: nat, width: nat) -> Seq<char>
    decreases width,
{
    if width == 0 {
        Seq::empty()
    } else {
        padded(n / 10, (width - 1) as nat).push(digit_char(n % 10))
    }
}

/// `-`? units `.` fraction (zero-padded to `width` digits).
pub open spec fn fixed_text(neg: bool, units: nat, frac: nat, width: nat) -> Seq<char> {
    (if neg { seq!['-'] } else { Seq::empty() }) + decimal(units) + seq!['.'] + padded(frac, width)
}

/// A peak as written in a tag: all six decimals.
pub open spec fn peak_text(v: i64) -> Seq<char> {
    fixed_text(v < 0, magnitude(v) / 1_000_000, magnitude(v) % 1_000_000, 6)
}

/// Hundredths of a unit, rounded half away from zero.
pub open spec fn hundredths(v: i64) -> nat {
    (magnitude(v) + 5000) / 10000
}

/// A gain as written in a tag: two decimals and the unit `dB`.
pub open spec fn gain_text(v: i64) -> Seq<char> {
    fixed_text(v < 0, hundredths(v) / 100, hundredths(v) % 100, 2) + seq![' ', 'd', 'B']
}

fn digit_of(d: u64) -> (c: char)
    requires
        d < 10,
    ensures
        c == digit_char(d as nat),
{
    if d == 0 { '0' } else if d == 1 { '1' } else if d == 2 { '2' } else if d == 3 { '3' } else if d == 4 { '4' } else if d
        == 5 { '5' } else if d == 6 { '6' } else if d == 7 { '7' } else if d == 8 { '8' } else { '9' }
}

fn push_padded(out: &mut String, n: u64, width: u64)
    ensures
        final(out)@ == old(out)@ + padded(n as nat, width as nat),
    decreases width,
{
    if width > 0 {
        push_padded(out, n / 10, width - 1);
        push_char(out, digit_of(n % 10));
        proof {
            assert(old(out)@ + padded(n as nat, width as nat) =~= old(out)@ + padded((n / 10) as nat, (width - 1) as nat) + seq![
                digit_char((n % 10) as nat),
            ]);
        }
    } else {
        proof {
            assert(old(out)@ + padded(n as nat, 0) =~= old(out)@);
        }
    }
}

fn magnitude_of(v: i64) -> (r: u64)
    ensures
        r == magnitude(v),
{
    if v < 0 {
        if v == i64::MIN {
            0x8000_0000_0000_0000u64
        } else {
            (-v) as u64
        }
    } else {
        v as u64
    }
}

fn push_fixed(out: &mut String, neg: bool, units: u64, frac: u64, width: u64)
    ensures
        final(out)@ == old(out)@ + fixed_text(neg, units as nat, frac as nat, width as nat),
{
    if neg {
        push_char(out, '-');
    }
    push_decimal(out, units);
    push_char(out, '.');
    push_padded(out, frac, width);
    proof {
        let sign = if neg { seq!['-'] } else { Seq::<char>::empty() };
        assert(old(out)@ + fixed_text(neg, units as nat, frac as nat, width as nat) =~= old(out)@ + sign + decimal(units as nat)
            + seq!['.'] + padded(frac as nat, width as nat));
    }
}

/// The fraction digits with trailing zeros dropped: the shortened fraction and its width.
pub open spec fn trimmed_frac(frac: nat, width: nat) -> (nat, nat)
    decreases width,
{
    if width > 0 && frac % 10 == 0 {
        trimmed_frac(frac / 10, (width - 1) as nat)
    } else {
        (frac, width)
    }
}

/// A fixed-point value written as briefly as its six decimals allow: sign, units, and the
/// fraction without trailing zeros (no point for a whole value).
pub open spec fn short_text(v: i64) -> Seq<char> {
    let neg = v < 0;
    let units = magnitude(v) / 1_000_000;
    let frac = magnitude(v) % 1_000_000;
    if frac == 0 {
        (if neg { seq!['-'] } else { Seq::empty() }) + decimal(units)
    } else {
        let (f, w) = trimmed_frac(frac, 6);
        fixed_text(neg, units, f, w)
    }
}

/// The value written as briefly as its six decimals allow.
pub fn format_short(v: i64) -> (r: String)
    ensures
        r@ == short_text(v),
{
    let m = magnitude_of(v);
    let units = m / SCALE;
    let frac = m % SCALE;
    let mut s = String::new();
    if frac == 0 {
        if v < 0 {
            push_char(&mut s, '-');
        }
        push_decimal(&mut s, units);
        proof {
            let sign = if v < 0 { seq!['-'] } else { Seq::<char>::empty() };
            assert(s@ =~= sign + decimal(units as nat));
        }
        return s;
    }
    let mut f = frac;
    let mut w: u64 = 6;
    while w > 0 && f % 10 == 0
        invariant
            w <= 6,
            f <= frac,
            trimmed_frac(f as nat, w as nat) == trimmed_frac(frac as nat, 6),
        decreases w,
    {
        f = f / 10;
        w = w - 1;
    }
    push_fixed(&mut s, v < 0, units, f, w);
    proof {
        assert(s@ =~= fixed_text(v < 0, units as nat, f as nat, w as nat));
    }
    s
}

/// A whole number as its decimal text, with `-` when negative.
pub open spec fn int_text(v: i64) -> Seq<char> {
    (if v < 0 { seq!['-'] } else { Seq::empty() }) + decimal(magnitude(v))
}

/// `i64::to_string`.
pub fn format_int(v: i64) -> (r: String)
    ensures
        r@ == int_text(v),
{
    let m = magnitude_of(v);
    let mut s = String::new();
    if v < 0 {
        push_char(&mut s, '-');
    }
    push_decimal(&mut s, m);
    proof {
        let sign = if v < 0 { seq!['-'] } else { Seq::<char>::empty() };
        assert(s@ =~= sign + decimal(m as nat));
    }
    s
}

/// `format!("{:.6}", peak)`.
pub fn format_peak(v: i64) -> (r: String)
    ensures
        r@ == peak_text(v),
{
    let m = magnitude_of(v);
    let mut s = String::new();
    proof {
        assert(s@ =~= Seq::<char>::empty());
    }
    push_fixed(&mut s, v < 0, m / SCALE, m % SCALE, 6);
    proof {
        assert(s@ =~= peak_text(v));
    }
    s
}

/// `format!("{:.2} dB", gain)`.
pub fn format_gain(v: i64) -> (r: String)
    ensures
        r@ == gain_text(v),
{
    let m = magnitude_of(v);
    let h = (m + 5000) / 10000;
    let mut s = String::new();
    proof {
        assert(s@ =~= Seq::<char>::empty());
    }
    push_fixed(&mut s, v < 0, h / 100, h % 100, 2);
    push_char(&mut s, ' ');
    push_char(&mut s, 'd');
    push_char(&mut s, 'B');
    proof {
        assert(s@ =~= gain_text(v));
    }
    s
}

/// `char::is_whitespace`: the characters with the Unicode `White_Space` property.
pub open spec fn is_ws(c: char) -> bool {
    ||| '\t' <= c && c <= '\r'
    ||| c == ' '
    ||| c == '\u{85}'
    ||| c == '\u{a0}'
    ||| c == '\u{1680}'
    ||| '\u{2000}' <= c && c <= '\u{200a}'
    ||| c == '\u{2028}'
    ||| c == '\u{2029}'
    ||| c == '\u{202f}'
    ||| c == '\u{205f}'
    ||| c == '\u{3000}'
}

fn ws(c: char) -> (r: bool)
    ensures
        r == is_ws(c),
{
    ('\t' <= c && c <= '\r') || c == ' ' || c == '\u{85}' || c == '\u{a0}' || c == '\u{1680}' || ('\u{2000}' <= c && c
        <= '\u{200a}') || c == '\u{2028}' || c == '\u{2029}' || c == '\u{202f}' || c == '\u{205f}' || c == '\u{3000}'
}

/// `str::trim`: whitespace dropped from both ends.
pub open spec fn trim_spec(s: Seq<char>) -> Seq<char> {
    trim_end(trim_start(s))
}

pub open spec fn trim_start(s: Seq<char>) -> Seq<char>
    decreases s.len(),
{
    if s.len() > 0 && is_ws(s[0]) {
        trim_start(s.drop_first())
    } else {
        s
    }
}

pub open spec fn trim_end(s: Seq<char>) -> Seq<char>
    decreases s.len(),
{
    if s.len() > 0 && is_ws(s.last()) {
        trim_end(s.drop_last())
    } else {
        s
    }
}

/// `str::trim_end_matches` with a non-empty text: the suffix dropped as often as it ends `s`.
pub open spec fn strip_suffixes(s: Seq<char>, suf: Seq<char>) -> Seq<char>
    decreases s.len(),
{
    if suf.len() > 0 && suf.len() <= s.len() && s.subrange(s.len() - suf.len(), s.len() as int) == suf {
        strip_suffixes(s.subrange(0, s.len() - suf.len()), suf)
    } else {
        s
    }
}

/// The bounds of `s` once whitespace is dropped from both ends.
fn trim_bounds(s: &[char]) -> (r: (usize, usize))
    ensures
        r.0 <= r.1 <= s@.len(),
        s@.subrange(r.0 as int, r.1 as int) == trim_spec(s@),
{
    let mut a: usize = 0;
    proof {
        assert(s@.skip(0) =~= s@);
    }
    while a < s.len() && ws(s[a])
        invariant
            a <= s@.len(),
            trim_start(s@) == trim_start(s@.skip(a as int)),
        decreases s@.len() - a,
    {
        proof {
            assert(s@.skip(a as int).drop_first() =~= s@.skip(a + 1));
        }
        a = a + 1;
    }
    proof {
        assert(trim_start(s@.skip(a as int)) == s@.skip(a as int));
        assert(s@.skip(a as int) =~= s@.subrange(a as int, s@.len() as int));
    }
    let mut b: usize = s.len();
    while b > a && ws(s[b - 1])
        invariant
            a <= b <= s@.len(),
            trim_spec(s@) == trim_end(s@.subrange(a as int, b as int)),
        decreases b,
    {
        proof {
            assert(s@.subrange(a as int, b as int).drop_last() =~= s@.subrange(a as int, b - 1));
        }
        b = b - 1;
    }
    (a, b)
}

/// `str::trim`: the text without whitespace at either end.
pub fn trim_chars(s: &[char]) -> (r: Vec<char>)
    ensures
        r@ == trim_spec(s@),
{
    let (a, b) = trim_bounds(s);
    let mut out: Vec<char> = Vec::new();
    let mut i: usize = a;
    while i < b
        invariant
            a <= i <= b <= s@.len(),
            out@ == s@.subrange(a as int, i as int),
        decreases b - i,
    {
        out.push(s[i]);
        proof {
            assert(out@ =~= s@.subrange(a as int, i + 1));
        }
        i = i + 1;
    }
    out
}

/// Drops every trailing copy of `suf` from `s[a..b]`, giving the new end.
fn strip_suffixes_exec(s: &[char], a: usize, b: usize, suf: &[char]) -> (r: usize)
    requires
        a <= b <= s@.len(),
        suf@.len() > 0,
    ensures
        a <= r <= b,
        s@.subrange(a as int, r as int) == strip_suffixes(s@.subrange(a as int, b as int), suf@),
{
    let mut e: usize = b;
    while e - a >= suf.len() && crate::text::chars_eq(slice_range(s, e - suf.len(), e), suf)
        invariant
            a <= e <= b <= s@.len(),
            suf@.len() > 0,
            strip_suffixes(s@.subrange(a as int, b as int), suf@) == strip_suffixes(s@.subrange(a as int, e as int), suf@),
        decreases e,
    {
        proof {
            let t = s@.subrange(a as int, e as int);
            assert(t.subrange(t.len() - suf@.len(), t.len() as int) =~= s@.subrange(e - suf@.len(), e as int));
            assert(t.subrange(0, t.len() - suf@.len()) =~= s@.subrange(a as int, e - suf@.len()));
        }
        e = e - suf.len();
    }
    proof {
        let t = s@.subrange(a as int, e as int);
        if suf@.len() <= t.len() {
            assert(t.subrange(t.len() - suf@.len(), t.len() as int) =~= s@.subrange(e - suf@.len(), e as int));
        }
    }
    e
}

/// `&s[a..b]`.
fn slice_range(s: &[char], a: usize, b: usize) -> (r: &[char])
    requires
        a <= b <= s@.len(),
    ensures
        r@ == s@.subrange(a as int, b as int),
{
    vstd::slice::slice_subrange(s, a, b)
}

/// The text of a fixed-point value: an optional sign, digits, and an optional point followed
/// by digits, with at least one digit in all. Digits past the sixth decimal are dropped.
pub open spec fn parse_fixed_spec(s: Seq<char>) -> Option<i64> {
    let neg = s.len() > 0 && s[0] == '-';
    let body = if s.len() > 0 && (s[0] == '+' || s[0] == '-') {
        s.skip(1)
    } else {
        s
    };
    let dot = point_at(body);
    let ip = if dot < body.len() {
        body.subrange(0, dot)
    } else {
        body
    };
    let fp = if dot < body.len() {
        body.skip(dot + 1)
    } else {
        Seq::empty()
    };
    let mag = digits_value(ip) * 1_000_000 + digits_value(frac_digits(fp));
    if all_digits(ip) && all_digits(fp) && ip.len() + fp.len() > 0 && mag <= i64::MAX {
        Some(if neg { -(mag as int) } else { mag as int } as i64)
    } else {
        None
    }
}

/// The index of the first `.`, or the length where there is none.
pub open spec fn point_at(s: Seq<char>) -> int
    decreases s.len(),
{
    if s.len() == 0 {
        0
    } else if s[0] == '.' {
        0
    } else {
        1 + point_at(s.drop_first())
    }
}

/// The first six digits of a fraction, padded with zeros.
pub open spec fn frac_digits(fp: Seq<char>) -> Seq<char> {
    Seq::new(6, |i: int| if i < fp.len() { fp[i] } else { '0' })
}

pub open spec fn pow10(n: nat) -> nat
    decreases n,
{
    if n == 0 {
        1
    } else {
        10 * pow10((n - 1) as nat)
    }
}

/// `str::parse` of a ReplayGain gain: trimmed, with trailing ` dB` and then `dB` dropped.
pub open spec fn parse_gain_spec(s: Seq<char>) -> Option<i64> {
    parse_fixed_spec(strip_suffixes(strip_suffixes(trim_spec(s), seq![' ', 'd', 'B']), seq!['d', 'B']))
}

fn all_digits_exec(s: &[char]) -> (r: bool)
    ensures
        r == all_digits(s@),
{
    let mut i: usize = 0;
    while i < s.len()
        invariant
            i <= s@.len(),
            forall|j: int| 0 <= j < i ==> is_digit(#[trigger] s@[j]),
        decreases s@.len() - i,
    {
        if !('0' <= s[i] && s[i] <= '9') {
            return false;
        }
        i = i + 1;
    }
    true
}

fn find_point(s: &[char]) -> (r: usize)
    ensures
        r == point_at(s@),
        r <= s@.len(),
{
    let mut i: usize = 0;
    proof {
        assert(s@.skip(0) =~= s@);
    }
    while i < s.len() && s[i] != '.'
        invariant
            i <= s@.len(),
            point_at(s@) == i + point_at(s@.skip(i as int)),
        decreases s@.len() - i,
    {
        proof {
            assert(s@.skip(i as int).drop_first() =~= s@.skip(i + 1));
        }
        i = i + 1;
    }
    i
}

proof fn lemma_digits_value_prefix(s: Seq<char>, k: int)
    requires
        0 <= k <= s.len(),
        all_digits(s),
    ensures
        digits_value(s.subrange(0, k)) <= digits_value(s),
    decreases s.len() - k,
{
    if k < s.len() {
        lemma_digits_value_prefix(s, k + 1);
        assert(s.subrange(0, k + 1).drop_last() =~= s.subrange(0, k));
    } else {
        assert(s.subrange(0, k) =~= s);
    }
}

/// The value of a digit string when it is at most `cap`.
fn digits_capped(s: &[char], cap: u64) -> (r: Option<u64>)
    requires
        all_digits(s@),
        cap <= u64::MAX / 10 - 9,
    ensures
        match r {
            Some(v) => v == digits_value(s@) && v <= cap,
            None => digits_value(s@) > cap,
        },
{
    let mut acc: u64 = 0;
    let mut i: usize = 0;
    while i < s.len()
        invariant
            i <= s@.len(),
            all_digits(s@),
            cap <= u64::MAX / 10 - 9,
            acc == digits_value(s@.subrange(0, i as int)),
            acc <= cap,
        decreases s@.len() - i,
    {
        proof {
            assert(s@.subrange(0, i + 1).drop_last() =~= s@.subrange(0, i as int));
            assert(is_digit(s@[i as int]));
        }
        let d = (s[i] as u32 - '0' as u32) as u64;
        proof {
            assert(d == digit_value(s@[i as int]));
        }
        acc = acc * 10 + d;
        i = i + 1;
        if acc > cap {
            proof {
                lemma_digits_value_prefix(s@, i as int);
            }
            return None;
        }
    }
    proof {
        assert(s@.subrange(0, s@.len() as int) =~= s@);
    }
    Some(acc)
}

fn frac_exec(fp: &[char]) -> (r: u64)
    requires
        all_digits(fp@),
    ensures
        r == digits_value(frac_digits(fp@)),
        r < 1_000_000,
{
    let ghost fd = frac_digits(fp@);
    let mut acc: u64 = 0;
    let mut i: usize = 0;
    proof {
        reveal_with_fuel(pow10, 7);
    }
    while i < 6
        invariant
            i <= 6,
            fd == frac_digits(fp@),
            all_digits(fp@),
            acc == digits_value(fd.subrange(0, i as int)),
            acc < pow10(i as nat),
            pow10(6) == 1_000_000,
        decreases 6 - i,
    {
        proof {
            assert(fd.subrange(0, i + 1).drop_last() =~= fd.subrange(0, i as int));
        }
        let c = if i < fp.len() { fp[i] } else { '0' };
        proof {
            assert(fd[i as int] == c);
            if i < fp@.len() {
                assert(is_digit(fp@[i as int]));
            }
        }
        let d = (c as u32 - '0' as u32) as u64;
        proof {
            assert(d == digit_value(c));
            assert(pow10((i + 1) as nat) == 10 * pow10(i as nat));
            assert(pow10(i as nat) <= 100_000) by {
                reveal_with_fuel(pow10, 7);
            }
        }
        acc = acc * 10 + d;
        i = i + 1;
    }
    proof {
        assert(fd.subrange(0, 6) =~= fd);
    }
    acc
}

/// Parses the text of a fixed-point value with six decimals.
pub fn parse_fixed(s: &[char]) -> (r: Option<i64>)
    ensures
        r == parse_fixed_spec(s@),
{
    let neg = s.len() > 0 && s[0] == '-';
    let start: usize = if s.len() > 0 && (s[0] == '+' || s[0] == '-') { 1 } else { 0 };
    let body = slice_range(s, start, s.len());
    proof {
        assert(body@ =~= (if s@.len() > 0 && (s@[0] == '+' || s@[0] == '-') { s@.skip(1) } else { s@ }));
    }
    let dot = find_point(body);
    let ip = if dot < body.len() { slice_range(body, 0, dot) } else { body };
    let empty: Vec<char> = Vec::new();
    let fp = if dot < body.len() { slice_range(body, dot + 1, body.len()) } else { empty.as_slice() };
    proof {
        if dot < body@.len() {
            assert(fp@ =~= body@.skip(dot + 1));
        } else {
            assert(fp@ =~= Seq::<char>::empty());
        }
    }
    if !all_digits_exec(ip) || !all_digits_exec(fp) || ip.len() + fp.len() == 0 {
        return None;
    }
    let units = match digits_capped(ip, 9_223_372_036_854) {
        Some(v) => v,
        None => return None,
    };
    let frac = frac_exec(fp);
    let mag = units * 1_000_000 + frac;
    if mag > 0x7FFF_FFFF_FFFF_FFFF {
        return None;
    }
    if neg {
        Some(-(mag as i64))
    } else {
        Some(mag as i64)
    }
}

/// Parses a ReplayGain gain: trimmed, with trailing ` dB` and then `dB` dropped.
pub fn parse_gain(value: &[char]) -> (r: Option<i64>)
    ensures
        r == parse_gain_spec(value@),
{
    let (a, b) = trim_bounds(value);
    let mut sp: Vec<char> = Vec::new();
    sp.push(' ');
    sp.push('d');
    sp.push('B');
    let mut db: Vec<char> = Vec::new();
    db.push('d');
    db.push('B');
    proof {
        assert(sp@ =~= seq![' ', 'd', 'B']);
        assert(db@ =~= seq!['d', 'B']);
    }
    let e1 = strip_suffixes_exec(value, a, b, sp.as_slice());
    let e2 = strip_suffixes_exec(value, a, e1, db.as_slice());
    parse_fixed(slice_range(value, a, e2))
}

proof fn lemma_pow10_pos(n: nat)
    ensures
        pow10(n) >= 1,
    decreases n,
{
    if n > 0 {
        lemma_pow10_pos((n - 1) as nat);
    }
}

/// The zero-padded digits of a number are `width` digits whose value is the number modulo
/// `10^width`.
proof fn lemma_padded(n: nat, w: nat)
    ensures
        padded(n, w).len() == w,
        all_digits(padded(n, w)),
        digits_value(padded(n, w)) == n % pow10(w),
    decreases w,
{
    if w > 0 {
        lemma_padded(n / 10, (w - 1) as nat);
        let p = pow10((w - 1) as nat);
        lemma_pow10_pos((w - 1) as nat);
        let s = padded(n, w);
        let t = padded(n / 10, (w - 1) as nat);
        assert(s.drop_last() =~= t);
        assert(s.last() == digit_char(n % 10));
        assert(digit_value(digit_char(n % 10)) == n % 10);
        assert forall|i: int| 0 <= i < s.len() implies is_digit(#[trigger] s[i]) by {
            if i < s.len() - 1 {
                assert(s[i] == t[i]);
            }
        }
        let q = (n / 10) as int;
        let r = (n % 10) as int;
        let a = q % (p as int);
        let b = q / (p as int);
        vstd::arithmetic::div_mod::lemma_fundamental_div_mod(q, p as int);
        vstd::arithmetic::div_mod::lemma_fundamental_div_mod(n as int, 10);
        assert(0 <= a < p);
        assert(0 <= a * 10 + r < 10 * p) by (nonlinear_arith)
            requires
                0 <= a < p,
                0 <= r < 10,
        ;
        assert(n as int == b * (10 * p) + (a * 10 + r)) by (nonlinear_arith)
            requires
                q == (p as int) * b + a,
                n as int == 10 * q + r,
        ;
        vstd::arithmetic::div_mod::lemma_fundamental_div_mod_converse(n as int, (10 * p) as int, b, a * 10 + r);
        assert(pow10(w) == 10 * p);
    }
}

/// The first point of digits, a point and more text is just after the digits.
proof fn lemma_point_after_digits(a: Seq<char>, b: Seq<char>)
    requires
        all_digits(a),
    ensures
        point_at(a + seq!['.'] + b) == a.len(),
    decreases a.len(),
{
    if a.len() == 0 {
        assert((a + seq!['.'] + b)[0] == '.');
    } else {
        assert(is_digit(a[0]));
        let rest = a.drop_first();
        assert forall|i: int| 0 <= i < rest.len() implies is_digit(#[trigger] rest[i]) by {
            assert(rest[i] == a[i + 1]);
        }
        lemma_point_after_digits(rest, b);
        assert((a + seq!['.'] + b).drop_first() =~= rest + seq!['.'] + b);
    }
}

/// Reading back a peak as written gives the same value, for every value but the least
/// (whose magnitude does not fit).
pub proof fn law_peak_text_roundtrip(v: i64)
    requires
        v != i64::MIN,
    ensures
        parse_fixed_spec(peak_text(v)) == Some(v),
{
    let m = magnitude(v);
    let units = m / 1_000_000;
    let frac = m % 1_000_000;
    crate::numtext::lemma_decimal(units);
    lemma_padded(frac, 6);
    assert(pow10(6) == 1_000_000) by {
        reveal_with_fuel(pow10, 7);
    }
    let d = decimal(units);
    let f = padded(frac, 6);
    let sign = if v < 0 { seq!['-'] } else { Seq::<char>::empty() };
    let s = peak_text(v);
    assert(s == sign + d + seq!['.'] + f);
    assert(is_digit(d[0]));
    let body = d + seq!['.'] + f;
    if v < 0 {
        assert(s[0] == '-');
        assert(s.skip(1) =~= body);
    } else {
        assert(s =~= body);
        assert(s[0] == d[0]);
    }
    lemma_point_after_digits(d, f);
    assert(body.subrange(0, d.len() as int) =~= d);
    assert(body.skip(d.len() as int + 1) =~= f);
    assert(frac_digits(f) =~= f);
    assert(units * 1_000_000 + frac == m);
    assert(m <= i64::MAX);
}

/// A gain rounded to hundredths of a unit, half away from zero, in millionths.
pub open spec fn rounded_gain(v: i64) -> int {
    if v < 0 {
        -(hundredths(v) * 10000)
    } else {
        (hundredths(v) * 10000) as int
    }
}

proof fn lemma_digits_append(a: Seq<char>, b: Seq<char>)
    requires
        all_digits(a),
        all_digits(b),
    ensures
        digits_value(a + b) == digits_value(a) * pow10(b.len()) + digits_value(b),
    decreases b.len(),
{
    if b.len() == 0 {
        assert(a + b =~= a);
        assert(pow10(0) == 1);
        assert(digits_value(b) == 0);
        assert(digits_value(a) * pow10(b.len()) == digits_value(a));
    } else {
        let b2 = b.drop_last();
        assert forall|i: int| 0 <= i < b2.len() implies is_digit(#[trigger] b2[i]) by {
            assert(b2[i] == b[i]);
        }
        lemma_digits_append(a, b2);
        assert((a + b).drop_last() =~= a + b2);
        assert((a + b).last() == b.last());
        let p = pow10(b2.len());
        assert(pow10(b.len()) == 10 * p);
        let x = digits_value(a);
        let y = digits_value(b2);
        let dl = digit_value(b.last());
        assert(digits_value(a + b) == digits_value(a + b2) * 10 + dl);
        assert(b.drop_last() == b2);
        assert(digits_value(b) == y * 10 + dl);
        let q = pow10(b.len());
        assert(digits_value(a + b2) == x * p + y);
        assert(digits_value(a + b) == x * q + digits_value(b)) by (nonlinear_arith)
            requires
                digits_value(a + b) == digits_value(a + b2) * 10 + dl,
                digits_value(a + b2) == x * p + y,
                digits_value(b) == y * 10 + dl,
                q == 10 * p,
        ;
    }
}

/// Reading back a gain as written gives it rounded to hundredths of a decibel (half away
/// from zero), so within half a hundredth of the value; for values whose rounded magnitude
/// fits.
/// The text of a gain, once trimmed and stripped of its unit, is the signed fixed-point text.
proof fn lemma_gain_text_stripped(v: i64)
    ensures
        strip_suffixes(strip_suffixes(trim_spec(gain_text(v)), seq![' ', 'd', 'B']), seq!['d', 'B']) == fixed_text(
            v < 0,
            hundredths(v) / 100,
            hundredths(v) % 100,
            2,
        ),
{
    let h = hundredths(v);
    let units = h / 100;
    let frac = h % 100;
    crate::numtext::lemma_decimal(units);
    lemma_padded(frac, 2);
    let d = decimal(units);
    let f = padded(frac, 2);
    let t = fixed_text(v < 0, units, frac, 2);
    let s = gain_text(v);
    let db = seq![' ', 'd', 'B'];
    assert(s == t + db);
    assert(is_digit(d[0]));
    assert(is_digit(f[1]));
    assert(s[0] == (if v < 0 { '-' } else { d[0] }));
    assert(trim_start(s) == s);
    assert(s.last() == 'B');
    assert(trim_end(s) == s);
    assert(s.subrange(s.len() - 3, s.len() as int) =~= db);
    assert(s.subrange(0, s.len() - 3) =~= t);
    assert(t.last() == f[1]);
    assert(t.subrange(t.len() - 3, t.len() as int).last() == f[1]);
    assert(t.subrange(t.len() - 2, t.len() as int).last() == f[1]);
    assert(strip_suffixes(s, db) == t) by {
        reveal_with_fuel(strip_suffixes, 3);
        assert(strip_suffixes(t, db) == t);
    }
    assert(strip_suffixes(t, seq!['d', 'B']) == t);
}

/// The signed fixed-point text with two decimals reads back as its value.
#[verifier::rlimit(30)]
proof fn lemma_two_decimals(neg: bool, units: nat, frac: nat)
    requires
        frac < 100,
        units * 1_000_000 + frac * 10000 <= i64::MAX,
    ensures
        parse_fixed_spec(fixed_text(neg, units, frac, 2)) == Some(
            (if neg { -(units * 1_000_000 + frac * 10000) } else { (units * 1_000_000 + frac * 10000) as int }) as i64,
        ),
{
    crate::numtext::lemma_decimal(units);
    lemma_padded(frac, 2);
    assert(pow10(2) == 100) by {
        reveal_with_fuel(pow10, 3);
    }
    assert(pow10(4) == 10000) by {
        reveal_with_fuel(pow10, 5);
    }
    let d = decimal(units);
    let f = padded(frac, 2);
    let t = fixed_text(neg, units, frac, 2);
    let body = d + seq!['.'] + f;
    assert(is_digit(d[0]));
    if neg {
        assert(t[0] == '-');
        assert(t.skip(1) =~= body);
    } else {
        assert(t =~= body);
        assert(t[0] == d[0]);
    }
    lemma_point_after_digits(d, f);
    assert(body.subrange(0, d.len() as int) =~= d);
    assert(body.skip(d.len() as int + 1) =~= f);
    let z = seq!['0', '0', '0', '0'];
    assert(frac_digits(f) =~= f + z);
    assert(all_digits(z));
    lemma_digits_append(f, z);
    assert(digits_value(z) == 0) by {
        reveal_with_fuel(digits_value, 5);
        assert(z.drop_last().drop_last().drop_last().drop_last() =~= Seq::<char>::empty());
    }
    assert(digits_value(frac_digits(f)) == frac * 10000);
}

/// Reading back a gain as written gives it rounded to hundredths of a decibel (half away
/// from zero), so within half a hundredth of the value; for values whose rounded magnitude
/// fits.
pub proof fn law_gain_text_roundtrip(v: i64)
    requires
        hundredths(v) * 10000 <= i64::MAX,
    ensures
        parse_gain_spec(gain_text(v)) == Some(rounded_gain(v) as i64),
        -5000 <= rounded_gain(v) - v <= 5000,
{
    let h = hundredths(v);
    lemma_gain_text_stripped(v);
    assert((h / 100) * 1_000_000 + (h % 100) * 10000 == h * 10000);
    lemma_two_decimals(v < 0, h / 100, h % 100);
    let m = magnitude(v);
    assert(h == (m + 5000) / 10000);
    assert(h * 10000 <= m + 5000 < h * 10000 + 10000);
}

} // verus!
