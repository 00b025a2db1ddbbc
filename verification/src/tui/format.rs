//! Numbers as the explorer shows them: memory sizes, dates, durations,
//! scheduling priorities and the layout of the CPU meters.
use vstd::prelude::*;

use crate::text::{digit_char, int_dec, nat_dec, push_char, push_i64, push_str, push_u64};

verus! {

/// Two to the power `k`.
pub open spec fn pow2(k: nat) -> nat
    decreases k,
{
    if k == 0 { 1 } else { 2 * pow2((k - 1) as nat) }
}

/// `n / d` rounded to the nearest integer, ties to the even one.
pub open spec fn div_round_even(n: nat, d: nat) -> nat {
    let q = n / d;
    let r = n % d;
    if 2 * r > d || (2 * r == d && q % 2 == 1) { q + 1 } else { q }
}

/// How many low bits a binary64 float drops from `b`: none below 2^53.
pub open spec fn float_shift(b: nat) -> nat
    decreases b,
{
    if b < 0x20_0000_0000_0000 { 0 } else { 1 + float_shift(b / 2) }
}

/// The value of `b as f64`: `b` rounded to 53 significant bits, ties to
/// even.
pub open spec fn as_float(b: nat) -> nat {
    div_round_even(b, pow2(float_shift(b))) * pow2(float_shift(b))
}

/// `x / d` with one decimal, as `{:.1}` prints it (rounded to the
/// nearest tenth, ties to even), followed by `unit`.
pub open spec fn tenths_text(x: nat, d: nat, unit: char) -> Seq<char> {
    let q = div_round_even(10 * x, d);
    nat_dec(q / 10) + seq!['.', digit_char((q % 10) as int), unit]
}

/// A size in bytes in human units: one decimal of GiB or MiB, whole KiB,
/// or bytes.
pub open spec fn memory_text(bytes: u64) -> Seq<char> {
    let x = as_float(bytes as nat);
    if x >= pow2(30) {
        tenths_text(x, pow2(30), 'G')
    } else if x >= pow2(20) {
        tenths_text(x, pow2(20), 'M')
    } else if x >= pow2(10) {
        nat_dec(div_round_even(x, pow2(10))) + seq!['K']
    } else {
        nat_dec(bytes as nat) + seq!['B']
    }
}

/// `n / d` rounded to the nearest integer, ties to even.
fn div_round_even_exec(n: u128, d: u128) -> (r: u128)
    requires
        d > 0,
        n / d < u128::MAX,
    ensures
        r == div_round_even(n as nat, d as nat),
{
    let q = n / d;
    let r = n % d;
    if r > d - r || (r == d - r && q % 2 == 1) { q + 1 } else { q }
}

proof fn lemma_pow2_values()
    ensures
        pow2(10) == 1024,
        pow2(20) == 1048576,
        pow2(30) == 1073741824,
        pow2(53) == 0x20_0000_0000_0000,
{
    reveal_with_fuel(pow2, 54);
}

/// Doubling the exponent doubles the power.
proof fn lemma_pow2_succ(k: nat)
    ensures
        pow2(k + 1) == 2 * pow2(k),
{
}

/// Powers of two are monotone.
proof fn lemma_pow2_mono(a: nat, b: nat)
    requires
        a <= b,
    ensures
        pow2(a) <= pow2(b),
    decreases b,
{
    if a < b {
        lemma_pow2_mono(a, (b - 1) as nat);
    }
}

/// Powers of two grow.
proof fn lemma_pow2_ge(k: nat)
    requires
        k >= 11,
    ensures
        pow2(k) >= 2048,
    decreases k,
{
    if k == 11 {
        reveal_with_fuel(pow2, 12);
    } else {
        lemma_pow2_ge((k - 1) as nat);
    }
}

/// `b as f64`, exactly, as an integer.
fn float_value(b: u64) -> (r: u128)
    ensures
        r == as_float(b as nat),
        r <= 0x1_0000_0000_0000_0800,
{
    proof { lemma_pow2_values(); }
    let mut k: u32 = 0;
    let mut p: u128 = 1;
    let mut m: u64 = b;
    while m >= 0x20_0000_0000_0000
        invariant
            p as nat == pow2(k as nat),
            m as int == b as int / p as int,
            p >= 1,
            p <= 2048,
            k <= 11,
            float_shift(b as nat) == k + float_shift(m as nat),
            pow2(53) == 0x20_0000_0000_0000,
        decreases m,
    {
        proof {
            lemma_pow2_succ(k as nat);
            vstd::arithmetic::div_mod::lemma_div_denominator(b as int, p as int, 2);
            if k >= 11 {
                lemma_pow2_ge(k as nat);
                assert(m as int <= u64::MAX as int / 2048) by (nonlinear_arith)
                    requires m as int == b as int / p as int, p >= 2048, b <= u64::MAX;
            }
            lemma_pow2_mono(k as nat, 10);
            reveal_with_fuel(pow2, 11);
        }
        m = m / 2;
        p = p * 2;
        k = k + 1;
    }
    assert(float_shift(m as nat) == 0);
    let q = div_round_even_exec(b as u128, p);
    assert(q * p <= 0x1_0000_0000_0000_0800) by (nonlinear_arith)
        requires
            q <= b as nat / p as nat + 1,
            b <= u64::MAX,
            p >= 1,
            p <= 2048,
    {
        assert((b as nat / p as nat) * p <= b);
    }
    let r = q * p;
    r
}

/// Below 2^53 a float holds a count of bytes exactly.
proof fn lemma_as_float_small(b: nat)
    requires
        b < 0x20_0000_0000_0000,
    ensures
        as_float(b) == b,
{
    assert(float_shift(b) == 0);
    assert(pow2(0) == 1);
}

/// From 2^53 up, the 53 significant bits of a float are at least 2^52.
proof fn lemma_float_mantissa(b: nat)
    requires
        b >= 0x20_0000_0000_0000,
    ensures
        b / pow2(float_shift(b)) >= 0x10_0000_0000_0000,
        pow2(float_shift(b)) >= 1,
    decreases b,
{
    let h = b / 2;
    assert(float_shift(b) == 1 + float_shift(h));
    lemma_pow2_succ(float_shift(h));
    if h >= 0x20_0000_0000_0000 {
        lemma_float_mantissa(h);
    } else {
        assert(float_shift(h) == 0);
        assert(pow2(0) == 1);
    }
    vstd::arithmetic::div_mod::lemma_div_denominator(b as int, 2, pow2(float_shift(h)) as int);
}

/// A float of a count of bytes is at least 2^30 exactly when the count is.
proof fn lemma_as_float_gib(b: nat)
    ensures
        as_float(b) >= pow2(30) <==> b >= pow2(30),
        b < pow2(30) ==> as_float(b) == b,
{
    lemma_pow2_values();
    if b < 0x20_0000_0000_0000 {
        lemma_as_float_small(b);
    } else {
        lemma_float_mantissa(b);
        let p = pow2(float_shift(b));
        let q = b / p;
        assert(div_round_even(b, p) >= q);
        assert(div_round_even(b, p) * p >= q * p) by (nonlinear_arith)
            requires div_round_even(b, p) >= q, p >= 1;
        assert(q * p >= q) by (nonlinear_arith)
            requires p >= 1, q >= 0;
    }
}

/// The shape of a size in human units: whole bytes below 1 KiB, whole
/// KiB (rounded) below 1 MiB, MiB with one decimal below 1 GiB, and GiB
/// with one decimal from there on, however large; below 2^53 the float of
/// a count is the count itself.
pub proof fn lemma_memory_shape(b: u64)
    ensures
        b < 1024 ==> memory_text(b) == nat_dec(b as nat) + seq!['B'],
        1024 <= b < 1048576 ==> memory_text(b) == nat_dec(div_round_even(b as nat, 1024)) + seq!['K'],
        1048576 <= b < 1073741824 ==> memory_text(b) == tenths_text(b as nat, 1048576, 'M'),
        b >= 1073741824 ==> memory_text(b) == tenths_text(as_float(b as nat), 1073741824, 'G')
            && as_float(b as nat) >= 1073741824,
        b < 0x20_0000_0000_0000 ==> as_float(b as nat) == b as nat,
{
    lemma_pow2_values();
    lemma_as_float_gib(b as nat);
    if b < 0x20_0000_0000_0000 {
        lemma_as_float_small(b as nat);
    }
}

/// Format bytes as human-readable (e.g., "12.3M", "1.2G").
pub fn format_memory(bytes: u64) -> (r: String)
    ensures
        r@ == memory_text(bytes),
{
    proof { lemma_pow2_values(); }
    let x = float_value(bytes);
    let mut out = String::new();
    if x >= 1073741824 {
        let q = div_round_even_exec(10 * x, 1073741824);
        push_u64(&mut out, (q / 10) as u64);
        push_char(&mut out, '.');
        push_char(&mut out, crate::text::digit((q % 10) as u64));
        push_char(&mut out, 'G');
    } else if x >= 1048576 {
        let q = div_round_even_exec(10 * x, 1048576);
        push_u64(&mut out, (q / 10) as u64);
        push_char(&mut out, '.');
        push_char(&mut out, crate::text::digit((q % 10) as u64));
        push_char(&mut out, 'M');
    } else if x >= 1024 {
        let q = div_round_even_exec(x, 1024);
        push_u64(&mut out, q as u64);
        push_char(&mut out, 'K');
    } else {
        push_u64(&mut out, bytes);
        push_char(&mut out, 'B');
    }
    assert(out@ =~= memory_text(bytes));
    out
}

/// Whether `y` is a leap year of the Gregorian calendar.
pub open spec fn leap_year(y: int) -> bool {
    y % 4 == 0 && (y % 100 != 0 || y % 400 == 0)
}

/// The number of days of year `y`.
pub open spec fn year_days(y: int) -> int {
    if leap_year(y) { 366 } else { 365 }
}

/// The year that day `rem` (counted from the start of year `y`) falls in,
/// and the day within it.
pub open spec fn year_and_day(y: int, rem: int) -> (int, int)
    decreases rem,
{
    if rem < 0 || rem < year_days(y) {
        (y, rem)
    } else {
        year_and_day(y + 1, rem - year_days(y))
    }
}

/// The days of month `i` (0-based) of year `y` in the Gregorian calendar;
/// February has 29 days in leap years.
pub open spec fn month_days(y: int, i: int) -> int {
    if i == 1 {
        if leap_year(y) { 29 } else { 28 }
    } else if i == 3 || i == 5 || i == 8 || i == 10 {
        30
    } else {
        31
    }
}

/// The month (1-based) that day `rem` of year `y`, counted from month `i`,
/// falls in, and the day within it (0-based).
pub open spec fn month_and_day(y: int, rem: int, i: int) -> (int, int)
    decreases 12 - i,
{
    if i >= 12 || rem < month_days(y, i) {
        (i + 1, rem)
    } else {
        month_and_day(y, rem - month_days(y, i), i + 1)
    }
}

/// A number of at least two digits, zero-padded.
pub open spec fn pad2(n: nat) -> Seq<char> {
    if n < 10 { seq!['0'] + nat_dec(n) } else { nat_dec(n) }
}

/// A time in seconds since the epoch as `YYYY-MM-DD hh:mm:ss` (UTC), or
/// `unknown` for zero.
pub open spec fn timestamp_text(secs: u64) -> Seq<char> {
    if secs == 0 {
        "unknown"@
    } else {
        let days = secs / 86400;
        let tod = secs % 86400;
        let (y, rem) = year_and_day(1970, days as int);
        let (m, d0) = month_and_day(y, rem, 0);
        int_dec(y) + seq!['-'] + pad2(m as nat) + seq!['-'] + pad2((d0 + 1) as nat) + seq![' ']
            + pad2((tod / 3600) as nat) + seq![':'] + pad2(((tod % 3600) / 60) as nat) + seq![':']
            + pad2((tod % 60) as nat)
    }
}

/// Appends `n` with at least two digits.
fn push_pad2(out: &mut String, n: u64)
    ensures
        final(out)@ == old(out)@ + pad2(n as nat),
{
    if n < 10 {
        push_char(out, '0');
    }
    push_u64(out, n);
}

/// The days of month `i` (0-based) of year `y`.
fn month_days_exec(y: i64, i: i64) -> (r: i64)
    requires
        0 <= i < 12,
        y >= 0,
    ensures
        r == month_days(y as int, i as int),
{
    if i == 1 {
        if year_len(y) == 366 { 29 } else { 28 }
    } else if i == 3 || i == 5 || i == 8 || i == 10 {
        30
    } else {
        31
    }
}

/// The number of days of year `y`.
fn year_len(y: i64) -> (r: i64)
    requires
        y >= 0,
    ensures
        r == year_days(y as int),
{
    let r4: i64 = y % 4;
    let r100: i64 = y % 100;
    let r400: i64 = y % 400;
    assert(r4 == (y as int) % 4 && r100 == (y as int) % 100 && r400 == (y as int) % 400);
    if r4 == 0 && (r100 != 0 || r400 == 0) { 366 } else { 365 }
}

/// A time in seconds since the epoch as `YYYY-MM-DD hh:mm:ss` (UTC).
pub fn format_timestamp(secs: u64) -> (r: String)
    ensures
        r@ == timestamp_text(secs),
{
    if secs == 0 {
        proof { reveal_strlit("unknown"); }
        return "unknown".to_string();
    }
    let days = secs / 86400;
    let tod = secs % 86400;
    let mut y: i64 = 1970;
    let mut remaining: i64 = days as i64;
    while remaining >= year_len(y)
        invariant
            1970 <= y,
            0 <= remaining,
            y - 1970 <= (days as int - remaining) / 365,
            remaining <= days,
            year_and_day(y as int, remaining as int) == year_and_day(1970, days as int),
        decreases remaining,
    {
        remaining = remaining - year_len(y);
        y = y + 1;
    }
    let ghost yr = year_and_day(1970, days as int);
    assert(yr == (y as int, remaining as int));
    let mut m: i64 = 1;
    let mut i: i64 = 0;
    while i < 12 && remaining >= month_days_exec(y, i)
        invariant
            0 <= i <= 12,
            y >= 1970,
            m == i + 1,
            0 <= remaining,
            remaining <= days,
            month_and_day(y as int, remaining as int, i as int) == month_and_day(yr.0, yr.1, 0),
        decreases 12 - i,
    {
        remaining = remaining - month_days_exec(y, i);
        m = m + 1;
        i = i + 1;
    }
    let mut out = String::new();
    push_i64(&mut out, y);
    push_char(&mut out, '-');
    push_pad2(&mut out, m as u64);
    push_char(&mut out, '-');
    push_pad2(&mut out, (remaining + 1) as u64);
    push_char(&mut out, ' ');
    push_pad2(&mut out, tod / 3600);
    push_char(&mut out, ':');
    push_pad2(&mut out, (tod % 3600) / 60);
    push_char(&mut out, ':');
    push_pad2(&mut out, tod % 60);
    assert(out@ =~= timestamp_text(secs));
    out
}

/// How long ago `start` was at `now` (seconds since the epoch), as
/// `Dd Hh Mm`, `Hh Mm` or `Mm`; `unknown` for a zero start.
pub open spec fn uptime_text(start: u64, now: u64) -> Seq<char> {
    if start == 0 {
        "unknown"@
    } else {
        let e = if now >= start { (now - start) as nat } else { 0nat };
        let days = e / 86400;
        let hours = (e % 86400) / 3600;
        let mins = (e % 3600) / 60;
        if days > 0 {
            nat_dec(days) + "d "@ + nat_dec(hours) + "h "@ + nat_dec(mins) + "m"@
        } else if hours > 0 {
            nat_dec(hours) + "h "@ + nat_dec(mins) + "m"@
        } else {
            nat_dec(mins) + "m"@
        }
    }
}

/// How long ago `start` was at `now`.
pub fn uptime_at(start: u64, now: u64) -> (r: String)
    ensures
        r@ == uptime_text(start, now),
{
    if start == 0 {
        proof { reveal_strlit("unknown"); }
        return "unknown".to_string();
    }
    let e = if now >= start { now - start } else { 0 };
    let days = e / 86400;
    let hours = (e % 86400) / 3600;
    let mins = (e % 3600) / 60;
    let mut out = String::new();
    if days > 0 {
        push_u64(&mut out, days);
        push_str(&mut out, "d ");
        push_u64(&mut out, hours);
        push_str(&mut out, "h ");
        push_u64(&mut out, mins);
        push_str(&mut out, "m");
    } else if hours > 0 {
        push_u64(&mut out, hours);
        push_str(&mut out, "h ");
        push_u64(&mut out, mins);
        push_str(&mut out, "m");
    } else {
        push_u64(&mut out, mins);
        push_str(&mut out, "m");
    }
    out
}

/// How long a process has run, by the wall clock.
pub fn format_uptime(start_secs: u64) -> (r: String)
    ensures
        exists|now: u64| r@ == uptime_text(start_secs, now),
{
    let now = crate::clock::unix_secs();
    uptime_at(start_secs, now)
}

/// The word for a scheduling priority.
pub open spec fn nice_word(nice: i32) -> Seq<char> {
    if -20 <= nice <= -11 { "CRIT"@ }
    else if -10 <= nice <= -1 { "HIGH"@ }
    else if nice == 0 { "NORM"@ }
    else if 1 <= nice <= 10 { "LOW"@ }
    else if 11 <= nice <= 20 { "IDLE"@ }
    else { "???"@ }
}

/// A scheduling priority with its word, such as `-5 HIGH`.
pub fn nice_label(nice: i32) -> (r: String)
    ensures
        r@ == int_dec(nice as int) + " "@ + nice_word(nice),
{
    let word = if -20 <= nice && nice <= -11 {
        "CRIT"
    } else if -10 <= nice && nice <= -1 {
        "HIGH"
    } else if nice == 0 {
        "NORM"
    } else if 1 <= nice && nice <= 10 {
        "LOW"
    } else if 11 <= nice && nice <= 20 {
        "IDLE"
    } else {
        "???"
    };
    let mut out = String::new();
    push_i64(&mut out, nice as i64);
    push_str(&mut out, " ");
    push_str(&mut out, word);
    out
}

/// The number of CPU meters per row when at most four rows are used.
pub open spec fn meters_per_row(cpu_count: nat) -> nat {
    let c = (cpu_count + 3) / 4;
    if c < 1 { 1 } else { c }
}

/// The layout of the CPU meters for `cpu_count` cores in `width` columns:
/// meters per row, bar width (at least four), and rows.
pub open spec fn meter_layout(cpu_count: nat, width: nat) -> (nat, nat, nat) {
    if cpu_count == 0 {
        (1, 8, 1)
    } else {
        let per_row = meters_per_row(cpu_count);
        let entry = width / per_row;
        let bar = if entry >= 11 { (entry - 11) as nat } else { 0 };
        (per_row, if bar < 4 { 4 } else { bar }, ((cpu_count + per_row - 1) as nat) / per_row)
    }
}

/// The layout of the CPU meters.
pub fn cpu_layout(cpu_count: usize, width: u16) -> (r: (usize, usize, usize))
    requires
        cpu_count + 3 <= usize::MAX,
        cpu_count + meters_per_row(cpu_count as nat) - 1 <= usize::MAX,
    ensures
        (r.0 as nat, r.1 as nat, r.2 as nat) == meter_layout(cpu_count as nat, width as nat),
{
    if cpu_count == 0 {
        return (1, 8, 1);
    }
    let max_rows: usize = 4;
    let fixed_per_cpu: usize = 11;
    let min_bar: usize = 4;
    let usable = width as usize;
    let c = (cpu_count + max_rows - 1) / max_rows;
    let cpus_per_row = if c < 1 { 1 } else { c };
    let entry_width = usable / cpus_per_row;
    let bar = if entry_width >= fixed_per_cpu { entry_width - fixed_per_cpu } else { 0 };
    let bar_width = if bar < min_bar { min_bar } else { bar };
    let cpu_rows = (cpu_count + cpus_per_row - 1) / cpus_per_row;
    (cpus_per_row, bar_width, cpu_rows)
}

} // verus!
