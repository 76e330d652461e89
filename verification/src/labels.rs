//! Tick labels: plain numbers, SI-suffixed numbers, decade labels and UTC
//! times.
//!
//! Values are counted in grid units. Every function is told how many grid
//! units make one logical unit, and labels show logical units.

use vstd::prelude::*;
use vstd::string::StringExecFns;

use crate::geometry::clamp_spec;
use crate::scale::RESOLUTION_MAX;
use crate::ticks::distance;

verus! {

/// The character of one decimal digit.
pub open spec fn digit_char(d: int) -> char {
    if d == 0 {
        '0'
    } else if d == 1 {
        '1'
    } else if d == 2 {
        '2'
    } else if d == 3 {
        '3'
    } else if d == 4 {
        '4'
    } else if d == 5 {
        '5'
    } else if d == 6 {
        '6'
    } else if d == 7 {
        '7'
    } else if d == 8 {
        '8'
    } else {
        '9'
    }
}

/// The decimal digits of a natural number, most significant first.
pub open spec fn decimal_digits(n: int) -> Seq<char>
    decreases n,
{
    if n < 10 {
        seq![digit_char(n)]
    } else {
        decimal_digits(n / 10).push(digit_char(n % 10))
    }
}

/// The number of grid units in a logical unit that a resolution stands
/// for: the resolution itself, brought within one and its limit.
pub open spec fn grid_of(resolution: i64) -> int {
    clamp_spec(resolution as int, 1, RESOLUTION_MAX as int)
}

/// A minus sign for a negative value, nothing else.
pub open spec fn sign_text(v: int) -> Seq<char> {
    if v < 0 {
        seq!['-']
    } else {
        Seq::empty()
    }
}

/// `num / div` rounded to the nearest integer, a tie to the even one.
pub open spec fn round_half_even(num: int, div: int) -> int {
    let q = num / div;
    let rem = num % div;
    if 2 * rem > div || (2 * rem == div && q % 2 == 1) {
        q + 1
    } else {
        q
    }
}

/// The digits after the decimal point: one for a scale of 10, two for a
/// scale of 100, three for a scale of 1000.
pub open spec fn fraction_text(frac: int, scale: int) -> Seq<char> {
    if scale == 10 {
        seq![digit_char(frac)]
    } else if scale == 100 {
        seq![digit_char(frac / 10), digit_char(frac % 10)]
    } else {
        seq![digit_char(frac / 100), digit_char((frac / 10) % 10), digit_char(frac % 10)]
    }
}

/// A count of `scale`-ths written as a decimal number: 1234 hundredths
/// are "12.34".
pub open spec fn scaled_text(r: int, scale: int) -> Seq<char> {
    decimal_digits(r / scale) + seq!['.'] + fraction_text(r % scale, scale)
}

/// The value `v / res` as a decimal number with one, two or three decimals
/// (a scale of 10, 100 or 1000), rounded to the nearest, a tie to the even
/// decimal.
pub open spec fn decimal_text(v: int, res: int, scale: int) -> Seq<char> {
    sign_text(v) + scaled_text(round_half_even(distance(0, v) * scale, res), scale)
}

/// The scale of the decimals shown for a displayed range of the given
/// span: one decimal from a thousand logical units on, two from ten on,
/// three below.
pub open spec fn decimal_scale(span: int, res: int) -> int {
    if span >= 1000 * res {
        10
    } else if span >= 10 * res {
        100
    } else {
        1000
    }
}

/// The span, in logical units, from which labels switch to SI suffixes.
pub const SI_SPAN: u64 = 1_000_000;

/// The divisor of the SI suffix that fits a magnitude of `av / res`.
pub open spec fn si_divisor(av: int, res: int) -> int {
    if av >= 1_000_000_000_000 * res {
        1_000_000_000_000
    } else if av >= 1_000_000_000 * res {
        1_000_000_000
    } else if av >= 1_000_000 * res {
        1_000_000
    } else {
        1_000
    }
}

/// The SI suffix that fits a magnitude of `av / res`: K, M, B or T.
pub open spec fn si_suffix(av: int, res: int) -> char {
    if av >= 1_000_000_000_000 * res {
        'T'
    } else if av >= 1_000_000_000 * res {
        'B'
    } else if av >= 1_000_000 * res {
        'M'
    } else {
        'K'
    }
}

/// The value `v / res` with an SI suffix: below a thousand the number with
/// two decimals; else the value over the suffix's divisor, with two
/// decimals from a billion on and one decimal below, then the suffix. The
/// rounding is to the nearest decimal of the exact quotient, and a quotient
/// that lies exactly halfway goes to the even decimal: 1150 is "1.2K" and
/// 1250 is "1.2K".
pub open spec fn format_si_spec(v: int, res: int) -> Seq<char> {
    let av = distance(0, v);
    if av < 1000 * res {
        decimal_text(v, res, 100)
    } else {
        let div = si_divisor(av, res) * res;
        let scale = if av >= 1_000_000_000 * res {
            100
        } else {
            10
        };
        sign_text(v) + scaled_text(round_half_even(av * scale, div), scale) + seq![
            si_suffix(av, res),
        ]
    }
}

/// The label of a tick at `v` on an axis that shows `[min, max]`, all in
/// grid units of which `res` make a logical unit: with an SI suffix from a
/// span of a million logical units on, else the number with as many
/// decimals as the span calls for.
pub open spec fn format_tick_spec(v: int, min: int, max: int, res: int) -> Seq<char> {
    let span = distance(min, max);
    if span >= SI_SPAN * res {
        format_si_spec(v, res)
    } else {
        decimal_text(v, res, decimal_scale(span, res))
    }
}

fn push_digit(s: &mut String, d: u64)
    requires
        d < 10,
    ensures
        final(s)@ == old(s)@.push(digit_char(d as int)),
{
    proof {
        reveal_strlit("0");
        reveal_strlit("1");
        reveal_strlit("2");
        reveal_strlit("3");
        reveal_strlit("4");
        reveal_strlit("5");
        reveal_strlit("6");
        reveal_strlit("7");
        reveal_strlit("8");
        reveal_strlit("9");
    }
    let ghost before = s@;
    if d == 0 {
        s.append("0");
    } else if d == 1 {
        s.append("1");
    } else if d == 2 {
        s.append("2");
    } else if d == 3 {
        s.append("3");
    } else if d == 4 {
        s.append("4");
    } else if d == 5 {
        s.append("5");
    } else if d == 6 {
        s.append("6");
    } else if d == 7 {
        s.append("7");
    } else if d == 8 {
        s.append("8");
    } else {
        s.append("9");
    }
    assert(s@ =~= before.push(digit_char(d as int)));
}

fn push_decimal(s: &mut String, n: u64)
    ensures
        final(s)@ == old(s)@ + decimal_digits(n as int),
    decreases n,
{
    let ghost before = s@;
    if n >= 10 {
        push_decimal(s, n / 10);
    }
    push_digit(s, n % 10);
    assert(s@ =~= before + decimal_digits(n as int));
}

fn magnitude(v: i64) -> (m: u64)
    ensures
        m == distance(0, v as int),
{
    if v < 0 {
        (-(v as i128)) as u64
    } else {
        v as u64
    }
}

fn grid(resolution: i64) -> (res: u128)
    ensures
        res == grid_of(resolution),
        1 <= res <= RESOLUTION_MAX,
{
    if resolution < 1 {
        1
    } else if resolution > RESOLUTION_MAX {
        RESOLUTION_MAX as u128
    } else {
        resolution as u128
    }
}

fn span_between(min: i64, max: i64) -> (span: u128)
    ensures
        span == distance(min as int, max as int),
        span <= 0xFFFF_FFFF_FFFF_FFFF,
{
    if min <= max {
        (max as i128 - min as i128) as u128
    } else {
        (min as i128 - max as i128) as u128
    }
}

fn rounded(num: u128, div: u128) -> (r: u128)
    requires
        1 <= div <= 0x4000_0000_0000_0000,
        num <= 0x8000_0000_0000_0000 * 1000,
    ensures
        r == round_half_even(num as int, div as int),
        r <= num + 1,
{
    let q = num / div;
    let rem = num % div;
    assert(q <= num) by (nonlinear_arith)
        requires
            q == num as int / div as int,
            div >= 1,
            num >= 0,
    ;
    if 2 * rem > div || (2 * rem == div && q % 2 == 1) {
        q + 1
    } else {
        q
    }
}

fn push_fraction(s: &mut String, frac: u64, scale: u64)
    requires
        scale == 10 || scale == 100 || scale == 1000,
        frac < scale,
    ensures
        final(s)@ == old(s)@ + fraction_text(frac as int, scale as int),
{
    let ghost before = s@;
    if scale == 10 {
        push_digit(s, frac);
    } else if scale == 100 {
        push_digit(s, frac / 10);
        push_digit(s, frac % 10);
    } else {
        push_digit(s, frac / 100);
        push_digit(s, (frac / 10) % 10);
        push_digit(s, frac % 10);
    }
    assert(s@ =~= before + fraction_text(frac as int, scale as int));
}

fn push_scaled(s: &mut String, r: u128, scale: u64)
    requires
        scale == 10 || scale == 100 || scale == 1000,
        r <= 0x8000_0000_0000_0000 * scale + 1,
    ensures
        final(s)@ == old(s)@ + scaled_text(r as int, scale as int),
{
    let ghost before = s@;
    proof {
        reveal_strlit(".");
    }
    let whole: u128 = r / (scale as u128);
    let frac: u128 = r % (scale as u128);
    assert(whole <= 0x8000_0000_0000_0001) by (nonlinear_arith)
        requires
            whole == r as int / scale as int,
            r <= 0x8000_0000_0000_0000 * scale + 1,
            scale >= 10,
            r >= 0,
    ;
    push_decimal(s, whole as u64);
    s.append(".");
    push_fraction(s, frac as u64, scale);
    assert(s@ =~= before + scaled_text(r as int, scale as int));
}

fn push_sign(s: &mut String, v: i64)
    ensures
        final(s)@ == old(s)@ + sign_text(v as int),
{
    let ghost before = s@;
    if v < 0 {
        proof {
            reveal_strlit("-");
        }
        s.append("-");
    }
    assert(s@ =~= before + sign_text(v as int));
}

fn push_decimal_text(s: &mut String, v: i64, res: u128, scale: u64)
    requires
        1 <= res <= RESOLUTION_MAX,
        scale == 10 || scale == 100 || scale == 1000,
    ensures
        final(s)@ == old(s)@ + decimal_text(v as int, res as int, scale as int),
{
    let ghost before = s@;
    let av = magnitude(v) as u128;
    assert(av * scale <= 0x8000_0000_0000_0000 * scale) by (nonlinear_arith)
        requires
            av <= 0x8000_0000_0000_0000,
            scale >= 0,
    ;
    assert(0x8000_0000_0000_0000 * scale <= 0x8000_0000_0000_0000 * 1000) by (nonlinear_arith)
        requires
            scale <= 1000,
    ;
    let r = rounded(av * (scale as u128), res);
    push_sign(s, v);
    push_scaled(s, r, scale);
    assert(s@ =~= before + decimal_text(v as int, res as int, scale as int));
}

/// The value `v` with an SI suffix (K, M, B, T), where `resolution` grid
/// units make a logical unit.
pub fn format_si(v: i64, resolution: i64) -> (r: String)
    ensures
        r@ == format_si_spec(v as int, grid_of(resolution)),
{
    let res = grid(resolution);
    let av = magnitude(v) as u128;
    let mut s = String::new();
    if av < 1000 * res {
        push_decimal_text(&mut s, v, res, 100);
        assert(s@ =~= format_si_spec(v as int, res as int));
        return s;
    }
    proof {
        reveal_strlit("K");
        reveal_strlit("M");
        reveal_strlit("B");
        reveal_strlit("T");
    }
    let unit: u128 = if av >= 1_000_000_000_000 * res {
        1_000_000_000_000
    } else if av >= 1_000_000_000 * res {
        1_000_000_000
    } else if av >= 1_000_000 * res {
        1_000_000
    } else {
        1_000
    };
    let scale: u64 = if av >= 1_000_000_000 * res {
        100
    } else {
        10
    };
    assert(unit * res <= 1_000_000_000_000 * 0x10_0000) by (nonlinear_arith)
        requires
            1 <= unit <= 1_000_000_000_000,
            1 <= res <= 0x10_0000,
    ;
    assert(unit * res >= 1) by (nonlinear_arith)
        requires
            1 <= unit,
            1 <= res,
    ;
    assert(av * scale <= 0x8000_0000_0000_0000 * scale) by (nonlinear_arith)
        requires
            av <= 0x8000_0000_0000_0000,
            scale >= 0,
    ;
    let r = rounded(av * (scale as u128), unit * res);
    push_sign(&mut s, v);
    push_scaled(&mut s, r, scale);
    if av >= 1_000_000_000_000 * res {
        s.append("T");
    } else if av >= 1_000_000_000 * res {
        s.append("B");
    } else if av >= 1_000_000 * res {
        s.append("M");
    } else {
        s.append("K");
    }
    assert(s@ =~= format_si_spec(v as int, res as int));
    s
}

/// The label of a tick at `v` on a linear axis that shows `[min, max]`,
/// where `resolution` grid units make a logical unit.
pub fn format_tick(v: i64, min: i64, max: i64, resolution: i64) -> (r: String)
    ensures
        r@ == format_tick_spec(v as int, min as int, max as int, grid_of(resolution)),
{
    let res = grid(resolution);
    let span = span_between(min, max);
    if span >= (SI_SPAN as u128) * res {
        return format_si(v, resolution);
    }
    let scale: u64 = if span >= 1000 * res {
        10
    } else if span >= 10 * res {
        100
    } else {
        1000
    };
    let mut s = String::new();
    push_decimal_text(&mut s, v, res, scale);
    assert(s@ =~= format_tick_spec(v as int, min as int, max as int, res as int));
    s
}

/// How many decades a magnitude of `av / res` lies below one: the least
/// `k` with `av * 10^k >= res`, for `0 < av < res`.
pub open spec fn decades_under(av: int, res: int) -> int
    decreases res - av,
{
    if av <= 0 || av * 10 >= res {
        1
    } else {
        1 + decades_under(av * 10, res)
    }
}

/// The label of a tick on a logarithmic axis: from one logical unit on the
/// value rounded to a whole number; below one the power of ten at or below
/// it as "1e-k"; zero, which lies in no decade, as "0".
pub open spec fn format_log_tick_spec(v: int, res: int) -> Seq<char> {
    let av = distance(0, v);
    if av >= res {
        sign_text(v) + decimal_digits(round_half_even(av, res))
    } else if av == 0 {
        seq!['0']
    } else {
        seq!['1', 'e', '-'] + decimal_digits(decades_under(av, res))
    }
}

/// The label of a tick on a logarithmic axis, where `resolution` grid units
/// make a logical unit.
pub fn format_log_tick(v: i64, resolution: i64) -> (r: String)
    ensures
        r@ == format_log_tick_spec(v as int, grid_of(resolution)),
{
    let res = grid(resolution);
    let av = magnitude(v) as u128;
    let mut s = String::new();
    if av >= res {
        let r = rounded(av, res);
        push_sign(&mut s, v);
        push_decimal(&mut s, r as u64);
        assert(s@ =~= format_log_tick_spec(v as int, res as int));
        return s;
    }
    if av == 0 {
        proof {
            reveal_strlit("0");
        }
        s.append("0");
        assert(s@ =~= format_log_tick_spec(v as int, res as int));
        return s;
    }
    let mut a: u128 = av;
    let mut k: u64 = 1;
    while a * 10 < res
        invariant
            1 <= a < res <= RESOLUTION_MAX,
            1 <= k <= 1 + (a - av),
            av >= 1,
            decades_under(av as int, res as int) == (k - 1) + decades_under(a as int, res as int),
        decreases res - a,
    {
        a = a * 10;
        k = k + 1;
    }
    proof {
        reveal_strlit("1e-");
    }
    s.append("1e-");
    push_decimal(&mut s, k);
    assert(s@ =~= format_log_tick_spec(v as int, res as int));
    s
}

/// The unit in which an axis counts time since the UNIX epoch.
#[derive(Clone, Copy, Debug, PartialEq, Eq, Structural)]
pub enum TimeUnit {
    Seconds,
    Millis,
}

/// Which time unit the bounds of an axis look like, in logical units:
/// epoch seconds between 800 million and 4 billion, epoch milliseconds
/// between 10^12 and 10^13.
pub open spec fn detect_time_like_spec(min: int, max: int, res: int) -> Option<TimeUnit> {
    let lo = if min <= max {
        min
    } else {
        max
    };
    let hi = if min <= max {
        max
    } else {
        min
    };
    if lo >= 800_000_000 * res && hi < 4_000_000_000 * res {
        Some(TimeUnit::Seconds)
    } else if lo >= 1_000_000_000_000 * res && hi < 10_000_000_000_000 * res {
        Some(TimeUnit::Millis)
    } else {
        None
    }
}

/// Tells from the bounds of an axis whether it counts epoch seconds or
/// epoch milliseconds, where `resolution` grid units make a logical unit.
pub fn detect_time_like(min: i64, max: i64, resolution: i64) -> (r: Option<TimeUnit>)
    ensures
        r == detect_time_like_spec(min as int, max as int, grid_of(resolution)),
{
    let res = grid(resolution) as i128;
    let lo = if min <= max {
        min as i128
    } else {
        max as i128
    };
    let hi = if min <= max {
        max as i128
    } else {
        min as i128
    };
    if lo >= 800_000_000 * res && hi < 4_000_000_000 * res {
        Some(TimeUnit::Seconds)
    } else if lo >= 1_000_000_000_000 * res && hi < 10_000_000_000_000 * res {
        Some(TimeUnit::Millis)
    } else {
        None
    }
}

/// The unit a time axis is read in: the detected one, else seconds.
pub open spec fn time_unit_of(min: int, max: int, res: int) -> TimeUnit {
    match detect_time_like_spec(min, max, res) {
        Some(u) => u,
        None => TimeUnit::Seconds,
    }
}

/// How many of the unit make a second.
pub open spec fn per_second(unit: TimeUnit) -> int {
    match unit {
        TimeUnit::Seconds => 1,
        TimeUnit::Millis => 1000,
    }
}

/// Division that rounds down, for a positive divisor.
pub open spec fn floor_div(v: int, d: int) -> int {
    if v >= 0 {
        v / d
    } else {
        -((-v + d - 1) / d)
    }
}

/// The whole epoch second that a tick value falls into.
pub open spec fn epoch_second(v: int, unit: TimeUnit, res: int) -> int {
    floor_div(v, per_second(unit) * res)
}

/// The pattern for a time axis, by the span it shows: seconds below two
/// minutes, minutes below two hours, day and minutes below a day, days
/// below 31 days, full dates from there on.
pub open spec fn time_pattern_spec(span: int, unit: TimeUnit, res: int) -> Seq<char> {
    let s = per_second(unit) * res;
    if span < 120 * s {
        "%H:%M:%S"@
    } else if span < 7_200 * s {
        "%H:%M"@
    } else if span < 86_400 * s {
        "%m-%d %H:%M"@
    } else if span < 2_678_400 * s {
        "%m-%d"@
    } else {
        "%Y-%m-%d"@
    }
}

/// Whether a pattern is one of those that time axes use.
pub open spec fn is_time_pattern(p: Seq<char>) -> bool {
    p == "%H:%M:%S"@ || p == "%H:%M"@ || p == "%m-%d %H:%M"@ || p == "%m-%d"@ || p == "%Y-%m-%d"@
}

/// What the calendar makes of an epoch second under a pattern, in UTC:
/// the formatted text, or nothing where the second is outside its range.
pub uninterp spec fn utc_text(secs: i64, pattern: Seq<char>) -> Option<Seq<char>>;

/// Formats an epoch second in UTC through `chrono`:
/// `DateTime::<Utc>::from_timestamp(secs, 0)`, then `DateTime::format` with
/// the pattern, written out as a string; nothing where `from_timestamp`
/// gives nothing. Not proved: that the outcome depends on the second and
/// the pattern alone. The contract claims that and no more, by equating the
/// outcome with `utc_text(secs, pattern)`. Only the patterns of time axes
/// are admitted, all of which `chrono` can write for a date with a time.
#[verifier::external_body]
fn format_utc(secs: i64, pattern: &str) -> (r: Option<String>)
    requires
        is_time_pattern(pattern@),
    ensures
        r matches Some(s) ==> utc_text(secs, pattern@) == Some(s@),
        r is None ==> utc_text(secs, pattern@) is None,
{
    match chrono::DateTime::<chrono::Utc>::from_timestamp(secs, 0) {
        Some(dt) => Some(dt.format(pattern).to_string()),
        None => None,
    }
}

fn time_pattern(span: u128, ticks_per_second: u128) -> (p: &'static str)
    requires
        span <= 0xFFFF_FFFF_FFFF_FFFF,
        1 <= ticks_per_second <= 1000 * RESOLUTION_MAX,
    ensures
        p@ == (if span < 120 * ticks_per_second {
            "%H:%M:%S"@
        } else if span < 7_200 * ticks_per_second {
            "%H:%M"@
        } else if span < 86_400 * ticks_per_second {
            "%m-%d %H:%M"@
        } else if span < 2_678_400 * ticks_per_second {
            "%m-%d"@
        } else {
            "%Y-%m-%d"@
        }),
        is_time_pattern(p@),
{
    let s = ticks_per_second;
    if span < 120 * s {
        "%H:%M:%S"
    } else if span < 7_200 * s {
        "%H:%M"
    } else if span < 86_400 * s {
        "%m-%d %H:%M"
    } else if span < 2_678_400 * s {
        "%m-%d"
    } else {
        "%Y-%m-%d"
    }
}

/// The label of a time tick, given what the calendar made of it: the
/// calendar's text, or the plain number label where it made nothing.
pub open spec fn time_label_spec(text: Option<Seq<char>>, v: int, min: int, max: int, res: int) -> Seq<
    char,
> {
    match text {
        Some(t) => t,
        None => format_tick_spec(v, min, max, res),
    }
}

/// Chooses the label of a time tick once the calendar has answered.
pub fn time_tick_label(text: Option<String>, v: i64, min: i64, max: i64, resolution: i64) -> (r: String)
    ensures
        r@ == time_label_spec(
            match text {
                Some(t) => Some(t@),
                None => None,
            },
            v as int,
            min as int,
            max as int,
            grid_of(resolution),
        ),
{
    match text {
        Some(t) => t,
        None => format_tick(v, min, max, resolution),
    }
}

/// The label of a tick at `v` on a time axis that shows `[min, max]`: the
/// UTC time of the tick's epoch second, in the pattern that suits the span;
/// the plain number label where the calendar cannot hold that second.
pub open spec fn format_time_tick_spec(v: i64, min: i64, max: i64, res: int) -> Seq<char> {
    let unit = time_unit_of(min as int, max as int, res);
    let pattern = time_pattern_spec(distance(min as int, max as int), unit, res);
    time_label_spec(
        utc_text(epoch_second(v as int, unit, res) as i64, pattern),
        v as int,
        min as int,
        max as int,
        res,
    )
}

/// The label of a tick at `v` on a time axis that shows `[min, max]`, where
/// `resolution` grid units make a logical unit.
pub fn format_time_tick(v: i64, min: i64, max: i64, resolution: i64) -> (r: String)
    ensures
        r@ == format_time_tick_spec(v, min, max, grid_of(resolution)),
{
    let res = grid(resolution);
    let unit = match detect_time_like(min, max, resolution) {
        Some(u) => u,
        None => TimeUnit::Seconds,
    };
    let per: u128 = match unit {
        TimeUnit::Seconds => 1,
        TimeUnit::Millis => 1000,
    };
    assert(per * res <= 1000 * 0x10_0000 && per * res >= 1) by (nonlinear_arith)
        requires
            1 <= per <= 1000,
            1 <= res <= 0x10_0000,
    ;
    let tick: i128 = (per * res) as i128;
    let secs: i64 = if v >= 0 {
        let q = v as i128 / tick;
        assert(0 <= q <= v) by (nonlinear_arith)
            requires
                q == v as int / tick as int,
                v >= 0,
                tick >= 1,
        ;
        q as i64
    } else {
        let n: i128 = -(v as i128) + tick - 1;
        let q = n / tick;
        assert(0 <= q <= n) by (nonlinear_arith)
            requires
                q == n as int / tick as int,
                n >= 0,
                tick >= 1,
        ;
        assert(q <= 0x8000_0000_0000_0000) by (nonlinear_arith)
            requires
                q == n as int / tick as int,
                0 <= n <= 0x8000_0000_0000_0000 + tick - 1,
                tick >= 1,
        ;
        (-q) as i64
    };
    let span = span_between(min, max);
    let pattern = time_pattern(span, per * res);
    let text = format_utc(secs, pattern);
    time_tick_label(text, v, min, max, resolution)
}

} // verus!
