//! Pure formatters (no I/O, no color): sizes, dates, list joining, and the
//! decimal rendering of integers they are built from.
use crate::text::{chars_of, push_range, push_str, to_owned};
use vstd::prelude::*;

verus! {

// ---------------------------------------------------------------------------
// Decimal digits
// ---------------------------------------------------------------------------

/// The ASCII digit for `d` (0..=9).
pub open spec fn digit(d: int) -> char {
    if d == 0 {
        '0'
    } else if d == 1 {
        '1'
    } else if d == 2 {
        '2'
    } else if d == 3 {
        '3'
    } else if d == 4 {
        '4'
    } else if d == 5 {
        '5'
    } else if d == 6 {
        '6'
    } else if d == 7 {
        '7'
    } else if d == 8 {
        '8'
    } else {
        '9'
    }
}

/// The decimal representation of `n` (no leading zeros; `"0"` for zero).
pub open spec fn dec(n: nat) -> Seq<char>
    decreases n,
{
    if n < 10 {
        seq![digit(n as int)]
    } else {
        dec(n / 10).push(digit((n % 10) as int))
    }
}

/// The decimal representation of a signed integer, with a leading `-` when negative.
pub open spec fn dec_int(n: int) -> Seq<char> {
    if n < 0 {
        seq!['-'] + dec((-n) as nat)
    } else {
        dec(n as nat)
    }
}

/// `s` left-padded with `'0'` to at least `w` characters (`{:0w}`).
pub open spec fn zero_pad(s: Seq<char>, w: nat) -> Seq<char> {
    if s.len() >= w {
        s
    } else {
        Seq::new((w - s.len()) as nat, |i: int| '0') + s
    }
}

pub proof fn lemma_dec_len(n: nat)
    ensures
        dec(n).len() >= 1,
        n < 10 ==> dec(n).len() == 1,
        10 <= n < 100 ==> dec(n).len() == 2,
        100 <= n < 1000 ==> dec(n).len() == 3,
        1000 <= n < 10000 ==> dec(n).len() == 4,
    decreases n,
{
    if n >= 10 {
        lemma_dec_len(n / 10);
    }
}

/// The character of one decimal digit.
pub fn digit_char(d: u64) -> (c: char)
    requires
        d < 10,
    ensures
        c == digit(d as int),
{
    match d {
        0 => '0',
        1 => '1',
        2 => '2',
        3 => '3',
        4 => '4',
        5 => '5',
        6 => '6',
        7 => '7',
        8 => '8',
        _ => '9',
    }
}

/// Appends the decimal representation of `n` to `out`.
pub fn push_dec(out: &mut String, n: u64)
    ensures
        final(out)@ == old(out)@ + dec(n as nat),
    decreases n,
{
    if n < 10 {
        out.push(digit_char(n));
        proof {
            assert(dec(n as nat) =~= seq![digit(n as int)]);
        }
    } else {
        push_dec(out, n / 10);
        out.push(digit_char(n % 10));
        proof {
            assert(dec(n as nat) == dec((n / 10) as nat).push(digit((n % 10) as int)));
        }
    }
}

/// Appends `n` in decimal, zero-padded to at least `w` characters.
pub fn push_dec_padded(out: &mut String, n: u64, w: u64)
    ensures
        final(out)@ == old(out)@ + zero_pad(dec(n as nat), w as nat),
{
    let mut digits = String::new();
    push_dec(&mut digits, n);
    let dv = chars_of(digits.as_str());
    let ghost start = out@;
    let mut k: u64 = dv.len() as u64;
    let mut pad: u64 = 0;
    while k < w
        invariant
            dv@.len() <= k <= w || (k == dv@.len() && k >= w),
            pad == k - dv@.len(),
            out@ == start + Seq::new(pad as nat, |i: int| '0'),
        decreases w - k,
    {
        out.push('0');
        k = k + 1;
        pad = pad + 1;
        proof {
            assert(out@ =~= start + Seq::new(pad as nat, |i: int| '0'));
        }
    }
    push_range(out, &dv, 0, dv.len());
    proof {
        assert(dv@.subrange(0, dv@.len() as int) =~= dec(n as nat));
        if dv@.len() >= w {
            assert(pad == 0);
            assert(out@ =~= start + dec(n as nat));
        } else {
            assert(pad == w - dv@.len());
            assert(out@ =~= start + (Seq::new((w - dv@.len()) as nat, |i: int| '0') + dec(
                n as nat,
            )));
        }
    }
}

/// Appends `n` in decimal, `-` first when negative.
pub fn push_dec_i64(out: &mut String, n: i64)
    ensures
        final(out)@ == old(out)@ + dec_int(n as int),
{
    if n < 0 {
        out.push('-');
        let m: u64 = if n == i64::MIN {
            9223372036854775808u64
        } else {
            (-n) as u64
        };
        let ghost mid = out@;
        push_dec(out, m);
        proof {
            assert(out@ =~= old(out)@ + (seq!['-'] + dec((-n) as nat)));
        }
    } else {
        push_dec(out, n as u64);
    }
}

/// The decimal representation of `n`.
pub fn i64_to_string(n: i64) -> (s: String)
    ensures
        s@ == dec_int(n as int),
{
    let mut s = String::new();
    push_dec_i64(&mut s, n);
    proof {
        assert(s@ =~= dec_int(n as int));
    }
    s
}

// ---------------------------------------------------------------------------
// Lists
// ---------------------------------------------------------------------------

/// The views of a vector of strings.
pub open spec fn strings_view(v: Seq<String>) -> Seq<Seq<char>> {
    v.map_values(|s: String| s@)
}

/// `items.join(sep)`.
pub open spec fn join(items: Seq<Seq<char>>, sep: Seq<char>) -> Seq<char>
    decreases items.len(),
{
    if items.len() == 0 {
        Seq::empty()
    } else if items.len() == 1 {
        items[0]
    } else {
        join(items.drop_last(), sep) + sep + items.last()
    }
}

/// `items.join(sep)` over strings.
pub fn join_strings(items: &Vec<String>, sep: &str) -> (r: String)
    ensures
        r@ == join(strings_view(items@), sep@),
{
    let mut out = String::new();
    let ghost sv = strings_view(items@);
    let mut i: usize = 0;
    while i < items.len()
        invariant
            0 <= i <= items@.len(),
            sv == strings_view(items@),
            out@ == join(sv.take(i as int), sep@),
        decreases items@.len() - i,
    {
        let ghost before = out@;
        if i > 0 {
            push_str(&mut out, sep);
        }
        push_str(&mut out, items[i].as_str());
        proof {
            assert(sv.take(i + 1).drop_last() =~= sv.take(i as int));
            assert(sv.take(i + 1).last() == items@[i as int]@);
            if i == 0 {
                assert(sv.take(1).len() == 1);
                assert(out@ =~= join(sv.take(i + 1), sep@));
            } else {
                assert(out@ =~= join(sv.take(i + 1), sep@));
            }
        }
        i = i + 1;
    }
    proof {
        assert(sv.take(items@.len() as int) =~= sv);
    }
    out
}

/// `items` joined by two spaces, or `none` when there are no items.
pub open spec fn join_or(items: Seq<Seq<char>>, none: Seq<char>) -> Seq<char> {
    if items.len() == 0 {
        none
    } else {
        join(items, seq![' ', ' '])
    }
}

/// Two-space-joined list, or `none` for an empty list (pacman's `-Qi` list style).
pub fn join_string_list(items: Vec<String>, none: &str) -> (r: String)
    ensures
        r@ == join_or(strings_view(items@), none@),
{
    if items.len() == 0 {
        to_owned(none)
    } else {
        let sep = "  ";
        proof {
            reveal_strlit("  ");
        }
        let r = join_strings(&items, sep);
        proof {
            assert(sep@ =~= seq![' ', ' ']);
        }
        r
    }
}

// ---------------------------------------------------------------------------
// Sizes
// ---------------------------------------------------------------------------

/// `1024^u`.
pub open spec fn pow1024(u: nat) -> nat
    decreases u,
{
    if u == 0 {
        1
    } else {
        1024 * pow1024((u - 1) as nat)
    }
}

/// The unit index for a magnitude: the largest `u <= 4` (starting from `u`) with
/// `m >= 1024^u`, found by repeated division as long as the quotient is at least 1024.
pub open spec fn size_unit(m: int, u: nat) -> nat
    decreases 4 - u,
{
    if u < 4 && m >= pow1024(u + 1) {
        size_unit(m, u + 1)
    } else {
        u
    }
}

/// The unit names `B`, `KiB`, `MiB`, `GiB`, `TiB`.
pub open spec fn unit_name(u: nat) -> Seq<char> {
    if u == 0 {
        seq!['B']
    } else if u == 1 {
        seq!['K', 'i', 'B']
    } else if u == 2 {
        seq!['M', 'i', 'B']
    } else if u == 3 {
        seq!['G', 'i', 'B']
    } else {
        seq!['T', 'i', 'B']
    }
}

/// `n / d` in hundredths, rounded to nearest with ties to even (as `{:.2}` rounds
/// an exact binary value).
pub open spec fn hundredths(n: nat, d: nat) -> nat
    recommends
        d > 0,
{
    let q = (n * 100) / d;
    let r = (n * 100) % d;
    if 2 * r > d || (2 * r == d && q % 2 == 1) {
        q + 1
    } else {
        q
    }
}

/// `{:.2}` of the value `h / 100`, with a leading `-` when `neg`.
pub open spec fn two_decimals(neg: bool, h: nat) -> Seq<char> {
    (if neg {
        seq!['-']
    } else {
        seq![]
    }) + dec(h / 100) + seq!['.'] + zero_pad(dec(h % 100), 2)
}

/// `2^n`.
pub open spec fn two_pow(n: nat) -> nat
    decreases n,
{
    if n == 0 {
        1
    } else {
        2 * two_pow((n - 1) as nat)
    }
}

/// The least `s` (counting up from `s`) with `m < 2^s * 2^53`: the exponent of
/// the gap between neighbouring `f64` values around `m`.
pub open spec fn f64_gap_exp(m: nat, s: nat) -> nat
    decreases 64 - s,
{
    if s >= 64 || m < two_pow(s) * 0x20_0000_0000_0000 {
        s
    } else {
        f64_gap_exp(m, s + 1)
    }
}

/// `m` rounded to 53 significant bits, ties to even: the value of `m as f64`.
pub open spec fn round_to_f64(m: nat) -> nat {
    let g = two_pow(f64_gap_exp(m, 0));
    let q = m / g;
    let r = m % g;
    (if 2 * r > g || (2 * r == g && q % 2 == 1) {
        q + 1
    } else {
        q
    }) * g
}

/// `format_size`: the magnitude of `bytes` taken as an `f64` (rounded to 53
/// significant bits), divided by 1024 while the quotient stays at least 1024
/// (at most down to TiB), shown with two decimals and the unit.
pub open spec fn size_text(bytes: int) -> Seq<char> {
    let neg = bytes < 0;
    let m: nat = if neg {
        (-bytes) as nat
    } else {
        bytes as nat
    };
    let v = round_to_f64(m);
    let u: nat = if neg {
        0
    } else {
        size_unit(v as int, 0)
    };
    two_decimals(neg, hundredths(v, pow1024(u))) + seq![' '] + unit_name(u)
}

/// `m as f64` for a magnitude of an `i64`.
fn magnitude_as_f64(m: u128) -> (v: u128)
    requires
        m <= 0x8000_0000_0000_0000u128,
    ensures
        v == round_to_f64(m as nat),
        v <= 0x8000_0000_0000_0800u128,
{
    proof {
        reveal_with_fuel(two_pow, 12);
    }
    let mut s: u64 = 0;
    let mut g: u128 = 1;
    while m >= g * 0x20_0000_0000_0000u128
        invariant
            s <= 11,
            g <= 2048,
            g == two_pow(s as nat),
            two_pow(11) == 2048,
            m <= 0x8000_0000_0000_0000u128,
            f64_gap_exp(m as nat, s as nat) == f64_gap_exp(m as nat, 0),
        decreases 11 - s,
    {
        if s == 11 {
            assert(false);
        }
        assert(two_pow((s + 1) as nat) == 2 * two_pow(s as nat));
        g = g * 2;
        s = s + 1;
    }
    proof {
        assert(f64_gap_exp(m as nat, s as nat) == s);
    }
    let q = m / g;
    let r = m % g;
    let k: u128 = if 2 * r > g || (2 * r == g && q % 2 == 1) {
        q + 1
    } else {
        q
    };
    proof {
        vstd::arithmetic::div_mod::lemma_fundamental_div_mod(m as int, g as int);
        assert(k * g <= m + g) by (nonlinear_arith)
            requires
                k <= q + 1,
                m == g * q + r,
                r >= 0,
                g >= 0,
        ;
    }
    k * g
}

pub proof fn lemma_pow1024_values()
    ensures
        pow1024(0) == 1,
        pow1024(1) == 1024,
        pow1024(2) == 1048576,
        pow1024(3) == 1073741824,
        pow1024(4) == 1099511627776,
{
    reveal_with_fuel(pow1024, 5);
}

/// Human-readable size, e.g. `1048576` -> `"1.00 MiB"`.
pub fn format_size(bytes: i64) -> (r: String)
    ensures
        r@ == size_text(bytes as int),
{
    proof {
        lemma_pow1024_values();
    }
    let neg = bytes < 0;
    let m0: u128 = if neg {
        (0i128 - bytes as i128) as u128
    } else {
        bytes as u128
    };
    let m = magnitude_as_f64(m0);
    let mut u: u64 = 0;
    let mut d: u128 = 1;
    if !neg {
        while u < 4 && m >= d * 1024
            invariant
                u <= 4,
                d == pow1024(u as nat),
                u < 4 ==> d <= 1073741824,
                pow1024(1) == 1024,
                pow1024(2) == 1048576,
                pow1024(3) == 1073741824,
                pow1024(4) == 1099511627776,
                size_unit(m as int, u as nat) == size_unit(m as int, 0),
                m <= 0x8000_0000_0000_0800u128,
            decreases 4 - u,
        {
            d = d * 1024;
            u = u + 1;
        }
    }
    let n100 = m * 100;
    let q = n100 / d;
    let rem = n100 % d;
    let h: u128 = if 2 * rem > d || (2 * rem == d && q % 2 == 1) {
        q + 1
    } else {
        q
    };
    proof {
        assert(h == hundredths(m as nat, d as nat));
    }
    let mut out = String::new();
    if neg {
        out.push('-');
    }
    let whole = h / 100;
    let frac = h % 100;
    push_dec(&mut out, whole as u64);
    out.push('.');
    push_dec_padded(&mut out, frac as u64, 2);
    out.push(' ');
    let unit = if u == 0 {
        "B"
    } else if u == 1 {
        "KiB"
    } else if u == 2 {
        "MiB"
    } else if u == 3 {
        "GiB"
    } else {
        "TiB"
    };
    proof {
        reveal_strlit("B");
        reveal_strlit("KiB");
        reveal_strlit("MiB");
        reveal_strlit("GiB");
        reveal_strlit("TiB");
        assert(unit@ =~= unit_name(u as nat));
    }
    push_str(&mut out, unit);
    proof {
        assert(out@ =~= size_text(bytes as int));
    }
    out
}

// ---------------------------------------------------------------------------
// Dates
// ---------------------------------------------------------------------------

/// Gregorian leap year.
pub open spec fn is_leap(y: int) -> bool {
    (y % 4 == 0 && y % 100 != 0) || y % 400 == 0
}

/// Days in year `y`.
pub open spec fn year_days(y: int) -> int {
    if is_leap(y) {
        366
    } else {
        365
    }
}

/// Days in month `m` (0-based) of a year with the given leapness.
pub open spec fn month_days(m: int, leap: bool) -> int {
    if m == 1 {
        if leap {
            29
        } else {
            28
        }
    } else if m == 3 || m == 5 || m == 8 || m == 10 {
        30
    } else {
        31
    }
}

/// Walk whole years from `year`, consuming `days`: the final (year, day-of-year).
pub open spec fn year_walk(days: int, year: int) -> (int, int)
    decreases days,
{
    if days >= year_days(year) && days > 0 {
        year_walk(days - year_days(year), year + 1)
    } else {
        (year, days)
    }
}

/// Walk whole months from `month`, consuming `days`: the final (month, day-of-month).
pub open spec fn month_walk(days: int, month: int, leap: bool) -> (int, int)
    decreases 12 - month,
{
    if month < 12 && days >= month_days(month, leap) {
        month_walk(days - month_days(month, leap), month + 1, leap)
    } else {
        (month, days)
    }
}

/// The UTC calendar rendering `YYYY-MM-DD HH:MM:SS UTC` of `secs` seconds after
/// the epoch, or the plain decimal of `secs` when it is negative or past year 9999.
pub open spec fn date_text(secs: int) -> Seq<char> {
    if secs < 0 || secs > 253_402_300_799 {
        dec_int(secs)
    } else {
        let h = (secs / 3600) % 24;
        let mi = (secs / 60) % 60;
        let s = secs % 60;
        let (year, yday) = year_walk(secs / 86400, 1970);
        let (month, mday) = month_walk(yday, 0, is_leap(year));
        stamp(year, month + 1, mday + 1, h, mi, s)
    }
}

/// One zero-padded decimal field of width `w` followed by the separator `sep`.
#[verifier::opaque]
pub open spec fn field(n: int, w: nat, sep: char) -> Seq<char> {
    zero_pad(dec(n as nat), w).push(sep)
}

/// `YYYY-MM-DD HH:MM:SS UTC`, each field zero-padded.
pub open spec fn stamp(year: int, month: int, day: int, h: int, mi: int, s: int) -> Seq<char> {
    field(year, 4, '-') + field(month, 2, '-') + field(day, 2, ' ') + field(h, 2, ':') + field(
        mi,
        2,
        ':',
    ) + field(s, 2, ' ') + seq!['U', 'T', 'C']
}

/// Facts about the year walk: it moves forward and stays within one year.
pub proof fn lemma_year_walk(days: int, year: int)
    requires
        days >= 0,
    ensures
        year_walk(days, year).0 >= year,
        0 <= year_walk(days, year).1 < year_days(year_walk(days, year).0) || (days == 0
            && year_walk(days, year).1 == 0),
        year_walk(days, year).0 <= year + days,
    decreases days,
{
    if days >= year_days(year) && days > 0 {
        lemma_year_walk(days - year_days(year), year + 1);
    }
}

/// Facts about the month walk within one year.
pub proof fn lemma_month_walk(days: int, month: int, leap: bool)
    requires
        0 <= month <= 12,
        days >= 0,
    ensures
        month_walk(days, month, leap).0 >= month,
        month_walk(days, month, leap).0 <= 12,
        month_walk(days, month, leap).1 >= 0,
        month_walk(days, month, leap).1 <= days,
        month_walk(days, month, leap).0 < 12 ==> month_walk(days, month, leap).1 < month_days(
            month_walk(days, month, leap).0,
            leap,
        ),
    decreases 12 - month,
{
    if month < 12 && days >= month_days(month, leap) {
        lemma_month_walk(days - month_days(month, leap), month + 1, leap);
    }
}

/// The days of the years `from` to `to - 1`.
pub open spec fn years_span(from: int, to: int) -> int
    decreases to - from,
{
    if to <= from {
        0
    } else {
        year_days(from) + years_span(from + 1, to)
    }
}

/// The days of a year's months before month `m` (0-based).
pub open spec fn days_before_month(m: int, leap: bool) -> int {
    let l = if leap {
        1int
    } else {
        0
    };
    if m <= 0 {
        0
    } else if m == 1 {
        31
    } else if m == 2 {
        59 + l
    } else if m == 3 {
        90 + l
    } else if m == 4 {
        120 + l
    } else if m == 5 {
        151 + l
    } else if m == 6 {
        181 + l
    } else if m == 7 {
        212 + l
    } else if m == 8 {
        243 + l
    } else if m == 9 {
        273 + l
    } else if m == 10 {
        304 + l
    } else if m == 11 {
        334 + l
    } else {
        365 + l
    }
}

proof fn lemma_year_walk_unique(days: int, year: int, y: int, r: int)
    requires
        y >= year,
        days == years_span(year, y) + r,
        0 <= r < year_days(y),
    ensures
        year_walk(days, year) == (y, r),
    decreases y - year,
{
    if y > year {
        assert(years_span(year, y) == year_days(year) + years_span(year + 1, y));
        assert(years_span(year + 1, y) >= 0) by {
            lemma_years_span_nonneg(year + 1, y);
        }
        lemma_year_walk_unique(days - year_days(year), year + 1, y, r);
    }
}

proof fn lemma_years_span_nonneg(from: int, to: int)
    ensures
        years_span(from, to) >= 0,
    decreases to - from,
{
    if to > from {
        lemma_years_span_nonneg(from + 1, to);
    }
}

proof fn lemma_month_walk_unique(days: int, month: int, leap: bool, m: int, r: int)
    requires
        0 <= month <= m < 12,
        days == days_before_month(m, leap) - days_before_month(month, leap) + r,
        0 <= r < month_days(m, leap),
    ensures
        month_walk(days, month, leap) == (m, r),
    decreases m - month,
{
    if m > month {
        assert(days_before_month(month + 1, leap) == days_before_month(month, leap) + month_days(month, leap));
        assert(days_before_month(m, leap) >= days_before_month(month + 1, leap));
        lemma_month_walk_unique(days - month_days(month, leap), month + 1, leap, m, r);
    }
}

/// The calendar law of [`date_text`]: for a time from the epoch through
/// 9999-12-31 23:59:59, the rendered date is the Gregorian date `y-m-d`
/// (month `m` 0-based, day `d` 0-based) whose day count since 1970-01-01 is
/// the number of whole days in `secs`, and the time is the rest of `secs`.
pub proof fn law_calendar(secs: int, y: int, m: int, d: int)
    requires
        0 <= secs <= 253_402_300_799,
        y >= 1970,
        0 <= m < 12,
        0 <= d < month_days(m, is_leap(y)),
        years_span(1970, y) + days_before_month(m, is_leap(y)) + d == secs / 86400,
    ensures
        date_text(secs) == stamp(y, m + 1, d + 1, (secs / 3600) % 24, (secs / 60) % 60, secs % 60),
{
    let leap = is_leap(y);
    assert(days_before_month(m, leap) + month_days(m, leap) <= year_days(y));
    lemma_year_walk_unique(secs / 86400, 1970, y, days_before_month(m, leap) + d);
    lemma_month_walk_unique(days_before_month(m, leap) + d, 0, leap, m, d);
}

/// `format_date`: seconds since the epoch as a UTC date-time.
pub fn format_date(secs: i64) -> (r: String)
    ensures
        r@ == date_text(secs as int),
{
    chrono_like(secs)
}

/// The length of year `y` in days.
fn days_in_year(y: i64) -> (d: i64)
    requires
        y >= 0,
    ensures
        d == year_days(y as int),
{
    let u = y as u64;
    if (u % 4 == 0 && u % 100 != 0) || u % 400 == 0 {
        366
    } else {
        365
    }
}

/// The length of month `m` (0-based) in days.
fn days_in_month(m: i64, leap: bool) -> (d: i64)
    ensures
        d == month_days(m as int, leap),
{
    if m == 1 {
        if leap {
            29
        } else {
            28
        }
    } else if m == 3 || m == 5 || m == 8 || m == 10 {
        30
    } else {
        31
    }
}

/// The civil (year, 0-based month, 0-based day of month) of day number `days`
/// counted from 1970-01-01.
fn civil_parts(days0: i64) -> (r: (i64, i64, i64))
    requires
        0 <= days0 <= 2932896,
    ensures
        ({
            let (year, yday) = year_walk(days0 as int, 1970);
            let (month, mday) = month_walk(yday, 0, is_leap(year));
            r.0 == year && r.1 == month && r.2 == mday
        }),
        1970 <= r.0 <= 1970 + 2932896,
        0 <= r.1 <= 12,
        0 <= r.2 <= 366,
{
    let mut days: i64 = days0;
    let mut year: i64 = 1970;
    let mut yd: i64 = days_in_year(year);
    while days >= yd
        invariant
            0 <= days <= 2932896,
            1970 <= year <= 1970 + 2932896 - days,
            yd == year_days(year as int),
            year_walk(days as int, year as int) == year_walk(days0 as int, 1970),
        decreases days,
    {
        days = days - yd;
        year = year + 1;
        yd = days_in_year(year);
    }
    assert(year_walk(days as int, year as int) == (year as int, days as int));
    let leap = (year % 4 == 0 && year % 100 != 0) || (year % 400 == 0);
    let mut month: i64 = 0;
    let ghost yday = days as int;
    let mut dm: i64 = days_in_month(month, leap);
    while month < 12 && days >= dm
        invariant
            0 <= month <= 12,
            0 <= days <= yday,
            yday < 367,
            month < 12 ==> dm == month_days(month as int, leap),
            month_walk(days as int, month as int, leap) == month_walk(yday, 0, leap),
        decreases 12 - month,
    {
        days = days - dm;
        month = month + 1;
        dm = days_in_month(month, leap);
    }
    assert(month_walk(days as int, month as int, leap) == (month as int, days as int));
    (year, month, days)
}

/// Appends [`field`]`(n, w, sep)`.
fn push_field(out: &mut String, n: u64, w: u64, sep: char)
    ensures
        final(out)@ == old(out)@ + field(n as int, w as nat, sep),
{
    push_dec_padded(out, n, w);
    out.push(sep);
    proof {
        reveal(field);
        assert(final(out)@ =~= old(out)@ + field(n as int, w as nat, sep));
    }
}

/// Renders [`stamp`].
fn render_stamp(year: u64, month: u64, day: u64, h: u64, mi: u64, s: u64) -> (out: String)
    ensures
        out@ == stamp(year as int, month as int, day as int, h as int, mi as int, s as int),
{
    let mut out = String::new();
    push_field(&mut out, year, 4, '-');
    push_field(&mut out, month, 2, '-');
    push_field(&mut out, day, 2, ' ');
    push_field(&mut out, h, 2, ':');
    push_field(&mut out, mi, 2, ':');
    push_field(&mut out, s, 2, ' ');
    out.push('U');
    out.push('T');
    out.push('C');
    proof {
        assert(out@ =~= stamp(year as int, month as int, day as int, h as int, mi as int, s as int));
    }
    out
}

/// Civil-calendar rendering of `secs` (see [`date_text`]).
pub fn chrono_like(secs: i64) -> (r: String)
    ensures
        r@ == date_text(secs as int),
{
    if secs < 0 || secs > 253_402_300_799 {
        return i64_to_string(secs);
    }
    let h = ((secs / 3600) % 24) as u64;
    let m = ((secs / 60) % 60) as u64;
    let s = (secs % 60) as u64;
    let (year, month, day0) = civil_parts(secs / 86400);
    render_stamp(year as u64, (month + 1) as u64, (day0 + 1) as u64, h, m, s)
}

} // verus!
