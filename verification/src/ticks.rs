//! Tick planning: "nice" tick positions on linear axes, decade ticks on
//! logarithmic ones, and the minor ticks between them.
//!
//! Values are in grid units. The ladders of steps and decades are powers of
//! ten of grid units, so they are the ladders of logical units wherever a
//! power of ten of grid units makes a logical unit.

use vstd::arithmetic::div_mod::lemma_fundamental_div_mod_converse;
use vstd::prelude::*;

use crate::arith::{lemma_trunc_div_cancel, trunc_div};

verus! {

/// The largest power of ten that is at most `q`; one where `q` is below ten.
pub open spec fn decade_below(q: int) -> int
    decreases q,
{
    if q < 10 {
        1
    } else {
        10 * decade_below(q / 10)
    }
}

/// The largest multiple of `step` that is at most `v`.
pub open spec fn floor_multiple(v: int, step: int) -> int {
    if v >= 0 {
        (v / step) * step
    } else {
        -(((-v + step - 1) / step) * step)
    }
}

/// The smallest multiple of `step` that is at least `v`.
pub open spec fn ceil_multiple(v: int, step: int) -> int {
    -floor_multiple(-v, step)
}

/// The distance between two values.
pub open spec fn distance(a: int, b: int) -> int {
    if a <= b {
        b - a
    } else {
        a - b
    }
}

/// The tick step, in grid units, for a span that should carry about `target`
/// ticks: the raw step `span / target` rounded up to the next of 1, 2, 5, 10
/// times the power of ten at or below it. Steps are whole grid units, so
/// the ladder ends at one grid unit; where a power of ten of grid units
/// makes a logical unit, it is the 1-2-5 ladder of logical units down to
/// that fraction of one.
pub open spec fn nice_step_spec(span: int, target: int) -> int {
    let base = decade_below(span / target);
    let unit = base * target;
    if span <= unit {
        base
    } else if span <= 2 * unit {
        2 * base
    } else if span <= 5 * unit {
        5 * base
    } else {
        10 * base
    }
}

/// How many ticks are planned: none below two wanted ticks or on a
/// collapsed range, else one per multiple of the step within the range, at
/// most four times the wanted number.
pub open spec fn nice_tick_count(min: int, max: int, target: int) -> int {
    if target < 2 || min == max {
        0
    } else {
        let step = nice_step_spec(distance(min, max), target);
        let start = ceil_multiple(min, step);
        let end = floor_multiple(max, step);
        if start > end {
            0
        } else if (end - start) / step + 1 > 4 * target {
            4 * target
        } else {
            (end - start) / step + 1
        }
    }
}

/// The planned ticks, ascending.
pub open spec fn nice_ticks_spec(min: i64, max: i64, target: int) -> Seq<i64> {
    let step = nice_step_spec(distance(min as int, max as int), target);
    let start = ceil_multiple(min as int, step);
    Seq::new(
        nice_tick_count(min as int, max as int, target) as nat,
        |i: int| (start + i * step) as i64,
    )
}

/// For `q >= 1`, `decade_below(q)` is at most `q` and more than a tenth of it.
pub proof fn lemma_decade_below_bounds(q: int)
    requires
        q >= 0,
    ensures
        decade_below(q) >= 1,
        q >= 1 ==> decade_below(q) <= q < 10 * decade_below(q),
    decreases q,
{
    if q >= 10 {
        lemma_decade_below_bounds(q / 10);
    }
}

/// The step is at least the raw step `span / target`, and for a span of at
/// least `target` less than two and a half times it.
pub proof fn lemma_nice_step_bounds(span: int, target: int)
    requires
        span >= 0,
        target >= 1,
    ensures
        nice_step_spec(span, target) >= 1,
        nice_step_spec(span, target) * target >= span,
        span >= target ==> 2 * (nice_step_spec(span, target) * target) < 5 * span,
{
    let q = span / target;
    let base = decade_below(q);
    let unit = base * target;
    assert(q >= 0 && q * target <= span < q * target + target) by (nonlinear_arith)
        requires
            span >= 0,
            target >= 1,
            q == span / target,
    ;
    lemma_decade_below_bounds(q);
    assert(unit >= 1 && (2 * base) * target == 2 * unit && (5 * base) * target == 5 * unit && (10
        * base) * target == 10 * unit) by (nonlinear_arith)
        requires
            unit == base * target,
            base >= 1,
            target >= 1,
    ;
    assert(span < 10 * unit) by (nonlinear_arith)
        requires
            unit == base * target,
            q < 10 * base,
            span < q * target + target,
            target >= 1,
            q >= 0,
            base >= 1,
    ;
    if span >= target {
        assert(q >= 1) by (nonlinear_arith)
            requires
                span >= target,
                target >= 1,
                q == span / target,
        ;
        assert(unit <= span) by (nonlinear_arith)
            requires
                unit == base * target,
                base <= q,
                q * target <= span,
                target >= 1,
        ;
    }
}

/// `floor_multiple(v, step)` is the multiple of `step` in `(v - step, v]`.
pub proof fn lemma_floor_multiple(v: int, step: int)
    requires
        step >= 1,
    ensures
        floor_multiple(v, step) <= v < floor_multiple(v, step) + step,
        floor_multiple(v, step) % step == 0,
        v <= ceil_multiple(v, step) < v + step,
        ceil_multiple(v, step) % step == 0,
{
    lemma_floor_multiple_half(v, step);
    lemma_floor_multiple_half(-v, step);
    let f = floor_multiple(-v, step);
    let k = f / step;
    assert(f == k * step) by (nonlinear_arith)
        requires
            f % step == 0,
            k == f / step,
            step >= 1,
    ;
    assert(-f == (-k) * step + 0) by (nonlinear_arith)
        requires
            f == k * step,
    ;
    lemma_fundamental_div_mod_converse(-f, step, -k, 0);
}

proof fn lemma_floor_multiple_half(v: int, step: int)
    requires
        step >= 1,
    ensures
        floor_multiple(v, step) <= v < floor_multiple(v, step) + step,
        floor_multiple(v, step) % step == 0,
{
    if v >= 0 {
        let q = v / step;
        assert(q * step <= v < q * step + step) by (nonlinear_arith)
            requires
                v >= 0,
                step >= 1,
                q == v / step,
        ;
        lemma_fundamental_div_mod_converse(q * step + 0, step, q, 0);
    } else {
        let q = (-v + step - 1) / step;
        assert(q * step <= -v + step - 1 < q * step + step) by (nonlinear_arith)
            requires
                -v + step - 1 >= 0,
                step >= 1,
                q == (-v + step - 1) / step,
        ;
        assert(-(q * step) == (-q) * step + 0) by (nonlinear_arith);
        lemma_fundamental_div_mod_converse(-(q * step), step, -q, 0);
    }
}

fn decade_floor(q: u128) -> (d: u128)
    ensures
        d == decade_below(q as int),
        d >= 1,
        q >= 1 ==> d <= q,
{
    let mut r: u128 = q;
    let mut d: u128 = 1;
    proof {
        lemma_decade_below_bounds(q as int);
    }
    while r >= 10
        invariant
            d >= 1,
            d * decade_below(r as int) == decade_below(q as int),
            decade_below(q as int) <= q || q == 0,
            r <= q,
        decreases r,
    {
        proof {
            lemma_decade_below_bounds(r as int / 10);
            assert(d * (10 * decade_below(r as int / 10)) == (d * 10) * decade_below(r as int / 10))
                by (nonlinear_arith);
            assert(d * 10 <= (d * 10) * decade_below(r as int / 10)) by (nonlinear_arith)
                requires
                    decade_below(r as int / 10) >= 1,
                    d >= 1,
            ;
        }
        r = r / 10;
        d = d * 10;
    }
    assert(d * 1 == d);
    d
}

/// The tick step for a span that should carry about `target` ticks.
pub fn nice_step(span: u64, target: usize) -> (step: u128)
    requires
        target >= 1,
    ensures
        step == nice_step_spec(span as int, target as int),
        step >= 1,
        step * target >= span,
        step <= 10 * span || step == 1,
{
    let t: u128 = target as u128;
    let s: u128 = span as u128;
    let q: u128 = s / t;
    let base = decade_floor(q);
    proof {
        lemma_nice_step_bounds(span as int, target as int);
        assert(q <= s && q * t <= s) by (nonlinear_arith)
            requires
                q == s / t,
                t >= 1,
        ;
        assert(base * t <= s || q == 0) by (nonlinear_arith)
            requires
                q >= 1 ==> base <= q,
                q * t <= s,
                t >= 1,
        ;
        assert(q == 0 ==> base == 1);
        assert(base * t <= 0x1_0000_0000_0000_0000) by (nonlinear_arith)
            requires
                base * t <= s || base == 1,
                s < 0x1_0000_0000_0000_0000,
                t <= 0x1_0000_0000_0000_0000,
        ;
    }
    let unit: u128 = base * t;
    if s <= unit {
        base
    } else if s <= 2 * unit {
        2 * base
    } else if s <= 5 * unit {
        5 * base
    } else {
        10 * base
    }
}

/// Every planned tick lies within `[min, max]` and is a multiple of the
/// step.
pub proof fn lemma_nice_ticks_on_the_ladder(min: i64, max: i64, target: int, i: int)
    requires
        0 <= i < nice_tick_count(min as int, max as int, target),
    ensures
        ({
            let step = nice_step_spec(distance(min as int, max as int), target);
            let tick = nice_ticks_spec(min, max, target)[i];
            min <= tick <= max && (tick as int) % step == 0
        }),
{
    let step = nice_step_spec(distance(min as int, max as int), target);
    let start = ceil_multiple(min as int, step);
    let end = floor_multiple(max as int, step);
    lemma_nice_step_bounds(distance(min as int, max as int), target);
    lemma_floor_multiple(min as int, step);
    lemma_floor_multiple(max as int, step);
    let q = (end - start) / step;
    assert(i * step <= end - start && i * step >= 0) by (nonlinear_arith)
        requires
            0 <= i <= q,
            q == (end - start) / step,
            end - start >= 0,
            step >= 1,
    ;
    let k = start / step;
    assert(start == k * step) by (nonlinear_arith)
        requires
            start % step == 0,
            k == start / step,
            step >= 1,
    ;
    assert(start + i * step == (k + i) * step + 0) by (nonlinear_arith)
        requires
            start == k * step,
    ;
    lemma_fundamental_div_mod_converse(start + i * step, step, k + i, 0);
}

fn floor_to_multiple(v: i128, step: i128) -> (r: i128)
    requires
        1 <= step <= 0x1000_0000_0000_0000_0000,
        -0x1_0000_0000_0000_0000 <= v <= 0x1_0000_0000_0000_0000,
    ensures
        r == floor_multiple(v as int, step as int),
        r <= v < r + step,
{
    proof {
        lemma_floor_multiple(v as int, step as int);
    }
    if v >= 0 {
        let q = v / step;
        assert(0 <= q * step <= v) by (nonlinear_arith)
            requires
                v >= 0,
                step >= 1,
                q == v / step,
        ;
        q * step
    } else {
        let n = -v + step - 1;
        let q = n / step;
        assert(0 <= q * step <= n) by (nonlinear_arith)
            requires
                n >= 0,
                step >= 1,
                q == n / step,
        ;
        -(q * step)
    }
}

proof fn lemma_quotient_at_least(d: int, step: int, k: int)
    requires
        step >= 1,
        k * step <= d,
    ensures
        k <= d / step,
{
    assert(k <= d / step) by (nonlinear_arith)
        requires
            step >= 1,
            k * step <= d,
    ;
}

proof fn lemma_quotient_below(d: int, step: int, k: int)
    requires
        step >= 1,
        d < k * step,
    ensures
        d / step < k,
{
    assert(d / step < k) by (nonlinear_arith)
        requires
            step >= 1,
            d < k * step,
    ;
}

/// Plans about `target` ticks over `[min, max]`: the multiples of the nice
/// step for the span, from the first at or above `min` to the last at or
/// below `max`, and never more than four times `target` of them. Fewer than
/// two wanted ticks, or a collapsed range, give none.
pub fn nice_ticks(min: i64, max: i64, target: usize) -> (out: Vec<i64>)
    ensures
        out@ == nice_ticks_spec(min, max, target as int),
        out@.len() == nice_tick_count(min as int, max as int, target as int),
        forall|i: int| 0 <= i < out@.len() ==> min <= #[trigger] out@[i] <= max,
        forall|i: int, j: int| 0 <= i < j < out@.len() ==> out@[i] < out@[j],
{
    let mut out: Vec<i64> = Vec::new();
    if target < 2 || min == max {
        assert(out@ =~= nice_ticks_spec(min, max, target as int));
        return out;
    }
    let span: u64 = if min <= max {
        (max as i128 - min as i128) as u64
    } else {
        (min as i128 - max as i128) as u64
    };
    let step: i128 = nice_step(span, target) as i128;
    let neg = floor_to_multiple(-(min as i128), step);
    let start: i128 = -neg;
    let end: i128 = floor_to_multiple(max as i128, step);
    let limit: u128 = 4 * (target as u128);
    let mut v: i128 = start;
    let mut i: u128 = 0;
    assert(0 * step == 0);
    while i < limit && v <= end
        invariant
            1 <= step <= 0x1000_0000_0000_0000_0000,
            limit == 4 * target,
            min <= start,
            end <= max,
            0 <= i <= limit,
            v == start + i * step,
            i > 0 ==> v - step <= end,
            out@.len() == i,
            forall|j: int| 0 <= j < i ==> out@[j] == (start + j * step) as i64,
            forall|j: int| 0 <= j < i ==> min <= #[trigger] out@[j] <= max,
            forall|j: int, k: int| 0 <= j < k < i ==> out@[j] < out@[k],
        decreases limit - i,
    {
        proof {
            assert((i + 1) * step == i * step + step) by (nonlinear_arith);
            assert forall|j: int| 0 <= j < i implies out@[j] < v by {
                assert(j * step < i * step) by (nonlinear_arith)
                    requires
                        j < i,
                        step >= 1,
                ;
                assert(start + j * step >= min) by (nonlinear_arith)
                    requires
                        start >= min,
                        j >= 0,
                        step >= 1,
                ;
            }
        }
        out.push(v as i64);
        v = v + step;
        i = i + 1;
    }
    proof {
        let count = nice_tick_count(min as int, max as int, target as int);
        if i > 0 {
            assert((i - 1) * step == i * step - step) by (nonlinear_arith);
            lemma_quotient_at_least(end - start, step as int, i - 1);
        }
        if v > end {
            if start <= end {
                lemma_quotient_below(end - start, step as int, i as int);
            }
        }
        assert(count == i);
        assert(out@ =~= nice_ticks_spec(min, max, target as int));
    }
    out
}

/// The value `i` of `den` equal steps along the way from `a` to `b`,
/// rounded toward `a`.
pub open spec fn lerp_at(a: i64, b: i64, den: int, i: int) -> int {
    a + trunc_div((b - a) * i, den)
}

/// The `i`-th of `n` evenly spaced values strictly inside the gap from `a`
/// to `b`, rounded toward `a`.
pub open spec fn minor_at(a: i64, b: i64, n: int, i: int) -> int {
    lerp_at(a, b, n + 1, i)
}

/// The first `i` of the `n` minor ticks between `a` and `b`.
pub open spec fn minors_between(a: i64, b: i64, n: int, i: int) -> Seq<i64>
    decreases i,
{
    if i <= 0 {
        Seq::empty()
    } else {
        minors_between(a, b, n, i - 1).push(minor_at(a, b, n, i) as i64)
    }
}

/// The minor ticks of the first `w` gaps between consecutive majors.
pub open spec fn minors_upto(majors: Seq<i64>, n: int, w: int) -> Seq<i64>
    decreases w,
{
    if w <= 0 {
        Seq::empty()
    } else {
        minors_upto(majors, n, w - 1) + minors_between(majors[w - 1], majors[w], n, n)
    }
}

/// All minor ticks: `n` in every gap between consecutive majors.
pub open spec fn minor_ticks_linear_spec(majors: Seq<i64>, n: int) -> Seq<i64> {
    if majors.len() < 2 || n <= 0 {
        Seq::empty()
    } else {
        minors_upto(majors, n, majors.len() - 1)
    }
}

/// A value along the way from `a` to `b` lies between the two.
pub proof fn lemma_lerp_inside(a: i64, b: i64, den: int, i: int)
    requires
        0 <= i <= den,
        den >= 1,
    ensures
        a <= b ==> a <= lerp_at(a, b, den, i) <= b,
        b <= a ==> b <= lerp_at(a, b, den, i) <= a,
        lerp_at(a, b, den, 0) == a,
        lerp_at(a, b, den, den) == b,
{
    let d = distance(a as int, b as int);
    assert(0 <= (d * i) / den <= d) by (nonlinear_arith)
        requires
            d >= 0,
            0 <= i <= den,
            den >= 1,
    ;
    if a <= b {
        assert((b - a) * i >= 0) by (nonlinear_arith)
            requires
                b - a >= 0,
                i >= 0,
        ;
    } else {
        assert((b - a) * i == -(d * i) && d * i >= 0) by (nonlinear_arith)
            requires
                d == a - b,
                d > 0,
                i >= 0,
        ;
    }
    assert((b - a) * 0 == 0);
    lemma_trunc_div_cancel(b - a, den);
}

/// A minor tick lies between the two majors of its gap.
pub proof fn lemma_minor_inside(a: i64, b: i64, n: int, i: int)
    requires
        1 <= i <= n,
    ensures
        a <= b ==> a <= minor_at(a, b, n, i) <= b,
        b <= a ==> b <= minor_at(a, b, n, i) <= a,
{
    lemma_lerp_inside(a, b, n + 1, i);
}

/// Every gap carries exactly `n` minor ticks.
pub proof fn lemma_minor_count(majors: Seq<i64>, n: int, w: int)
    requires
        n >= 0,
        0 <= w,
    ensures
        minors_upto(majors, n, w).len() == w * n,
    decreases w,
{
    if w > 0 {
        lemma_minor_count(majors, n, w - 1);
        lemma_minors_between_len(majors[w - 1], majors[w], n, n);
        assert(w * n == (w - 1) * n + n) by (nonlinear_arith);
    } else {
        assert(0 * n == 0);
    }
}

proof fn lemma_minors_between_len(a: i64, b: i64, n: int, i: int)
    requires
        i >= 0,
    ensures
        minors_between(a, b, n, i).len() == i,
    decreases i,
{
    if i > 0 {
        lemma_minors_between_len(a, b, n, i - 1);
    }
}

/// The value `i` of `den` equal steps along the way from `a` to `b`.
pub(crate) fn lerp(a: i64, b: i64, den: u128, i: u128) -> (v: i64)
    requires
        1 <= den <= 0x1_0000_0000_0000_0000,
        i <= den,
    ensures
        v == lerp_at(a, b, den as int, i as int),
{
    let d: u128 = if a <= b {
        (b as i128 - a as i128) as u128
    } else {
        (a as i128 - b as i128) as u128
    };
    proof {
        lemma_lerp_inside(a, b, den as int, i as int);
        assert(d * i <= 0xFFFF_FFFF_FFFF_FFFF * 0x1_0000_0000_0000_0000) by (nonlinear_arith)
            requires
                0 <= d <= 0xFFFF_FFFF_FFFF_FFFF,
                0 <= i <= 0x1_0000_0000_0000_0000,
        ;
        assert(0 <= (d * i) / (den as int) <= d) by (nonlinear_arith)
            requires
                d >= 0,
                0 <= i <= den,
                den >= 1,
        ;
        if a <= b {
            assert((b - a) * i >= 0) by (nonlinear_arith)
                requires
                    b - a >= 0,
                    i >= 0,
            ;
        } else {
            assert((b - a) * i == -(d * i) && d * i >= 0) by (nonlinear_arith)
                requires
                    d == a - b,
                    d > 0,
                    i >= 0,
            ;
        }
    }
    let q: u128 = (d * i) / den;
    if a <= b {
        (a as i128 + q as i128) as i64
    } else {
        (a as i128 - q as i128) as i64
    }
}

/// Puts `n` evenly spaced minor ticks into every gap between consecutive
/// major ticks. Fewer than two majors, or `n == 0`, give none.
pub fn minor_ticks_linear(majors: &[i64], n: usize) -> (out: Vec<i64>)
    ensures
        out@ == minor_ticks_linear_spec(majors@, n as int),
        majors@.len() >= 2 ==> out@.len() == (majors@.len() - 1) * n,
{
    let mut out: Vec<i64> = Vec::new();
    if majors.len() < 2 || n == 0 {
        assert((majors@.len() - 1) * 0 == 0);
        return out;
    }
    let mut w: usize = 0;
    while w < majors.len() - 1
        invariant
            majors@.len() >= 2,
            n >= 1,
            w <= majors@.len() - 1,
            out@ == minors_upto(majors@, n as int, w as int),
        decreases majors@.len() - 1 - w,
    {
        let a = majors[w];
        let b = majors[w + 1];
        let ghost before = out@;
        let mut i: usize = 0;
        while i < n
            invariant
                n >= 1,
                i <= n,
                out@ == before + minors_between(a, b, n as int, i as int),
            decreases n - i,
        {
            let v = lerp(a, b, n as u128 + 1, i as u128 + 1);
            out.push(v);
            i += 1;
            assert(out@ =~= before + minors_between(a, b, n as int, i as int));
        }
        w += 1;
    }
    proof {
        lemma_minor_count(majors@, n as int, majors@.len() - 1);
    }
    out
}

/// Ten to the power `k`.
pub open spec fn pow10(k: nat) -> int
    decreases k,
{
    if k == 0 {
        1
    } else {
        10 * pow10((k - 1) as nat)
    }
}

/// Number of decades whose power of ten is a 64-bit value: `10^0 ..= 10^18`.
pub const DECADES: usize = 19;

/// Whether the power of ten `p` is a decade tick for `[min, max]`: the
/// maximum is at least one, `p` is at least the largest power of ten at or
/// below `min`, and the power below `p` (if any) is still below `max`.
pub open spec fn is_log_tick(p: int, min: int, max: int) -> bool {
    max >= 1 && decade_below(min) <= p && (p == 1 || p / 10 < max)
}

/// The decade ticks among the first `k` powers of ten, ascending.
pub open spec fn log_ticks_upto(min: int, max: int, k: nat) -> Seq<i64>
    decreases k,
{
    if k == 0 {
        Seq::empty()
    } else {
        let before = log_ticks_upto(min, max, (k - 1) as nat);
        let p = pow10((k - 1) as nat);
        if is_log_tick(p, min, max) {
            before.push(p as i64)
        } else {
            before
        }
    }
}

/// The decade ticks for `[min, max]`: one per power of ten from the one at
/// or below `min` to the one at or above `max`, as far as 64 bits reach.
pub open spec fn log_ticks_spec(min: i64, max: i64, target: int) -> Seq<i64> {
    if min <= 0 || target < 2 {
        Seq::empty()
    } else {
        log_ticks_upto(min as int, max as int, DECADES as nat)
    }
}

/// The minor ticks of the decade that starts at `p`, for the multipliers
/// from 2 up to but not `m`, as far as they lie within `[min, max]`.
pub open spec fn decade_minors(min: int, max: int, p: int, m: int) -> Seq<i64>
    decreases m,
{
    if m <= 2 {
        Seq::empty()
    } else {
        let before = decade_minors(min, max, p, m - 1);
        let v = (m - 1) * p;
        if min <= v <= max {
            before.push(v as i64)
        } else {
            before
        }
    }
}

/// The minor ticks of the first `k` decades, ascending.
pub open spec fn minor_log_upto(min: int, max: int, k: nat) -> Seq<i64>
    decreases k,
{
    if k == 0 {
        Seq::empty()
    } else {
        minor_log_upto(min, max, (k - 1) as nat) + decade_minors(
            min,
            max,
            pow10((k - 1) as nat),
            10,
        )
    }
}

/// The minor ticks of a logarithmic axis: every `m * 10^k` with `m` from 2
/// to 9 that lies within `[min, max]`; none for a minimum that is not
/// positive.
pub open spec fn minor_ticks_log_spec(min: i64, max: i64) -> Seq<i64> {
    if min <= 0 {
        Seq::empty()
    } else {
        minor_log_upto(min as int, max as int, DECADES as nat)
    }
}

/// The powers of ten up to the eighteenth are 64-bit values.
pub proof fn lemma_pow10_bounds(k: nat)
    requires
        k < DECADES,
    ensures
        1 <= pow10(k) <= 1_000_000_000_000_000_000,
        k > 0 ==> pow10(k) == 10 * pow10((k - 1) as nat) && pow10(k) / 10 == pow10((k - 1) as nat),
    decreases k,
{
    reveal_with_fuel(pow10, 20);
}

/// Plans the decade ticks of a logarithmic axis over `[min, max]`. A minimum
/// or a maximum that is not positive, or fewer than two wanted ticks, give
/// none.
pub fn log_ticks(min: i64, max: i64, target: usize) -> (out: Vec<i64>)
    ensures
        out@ == log_ticks_spec(min, max, target as int),
{
    let mut out: Vec<i64> = Vec::new();
    if min <= 0 || target < 2 {
        return out;
    }
    let low: u128 = decade_floor(min as u128);
    let mut p: i64 = 1;
    let mut k: usize = 0;
    while k < DECADES
        invariant
            k <= DECADES,
            low == decade_below(min as int),
            k < DECADES ==> p == pow10(k as nat),
            out@ == log_ticks_upto(min as int, max as int, k as nat),
        decreases DECADES - k,
    {
        proof {
            lemma_pow10_bounds(k as nat);
            if k + 1 < DECADES {
                lemma_pow10_bounds((k + 1) as nat);
            }
        }
        if max >= 1 && low <= p as u128 && (p == 1 || p / 10 < max) {
            out.push(p);
        }
        k += 1;
        if k < DECADES {
            p = p * 10;
        }
    }
    out
}

/// Plans the minor ticks of a logarithmic axis over `[min, max]`: the
/// multiples 2 to 9 of every power of ten, as far as they lie in the range.
pub fn minor_ticks_log(min: i64, max: i64) -> (out: Vec<i64>)
    ensures
        out@ == minor_ticks_log_spec(min, max),
        forall|i: int| 0 <= i < out@.len() ==> min <= #[trigger] out@[i] <= max,
{
    let mut out: Vec<i64> = Vec::new();
    if min <= 0 {
        return out;
    }
    let mut p: i64 = 1;
    let mut k: usize = 0;
    while k < DECADES
        invariant
            k <= DECADES,
            k < DECADES ==> p == pow10(k as nat),
            out@ == minor_log_upto(min as int, max as int, k as nat),
            forall|i: int| 0 <= i < out@.len() ==> min <= #[trigger] out@[i] <= max,
        decreases DECADES - k,
    {
        proof {
            lemma_pow10_bounds(k as nat);
            if k + 1 < DECADES {
                lemma_pow10_bounds((k + 1) as nat);
            }
        }
        let ghost before = out@;
        let mut m: i64 = 2;
        while m < 10
            invariant
                2 <= m <= 10,
                1 <= p <= 1_000_000_000_000_000_000,
                out@ == before + decade_minors(min as int, max as int, p as int, m as int),
                forall|i: int| 0 <= i < out@.len() ==> min <= #[trigger] out@[i] <= max,
            decreases 10 - m,
        {
            assert(m * p <= 9 * 1_000_000_000_000_000_000) by (nonlinear_arith)
                requires
                    2 <= m <= 9,
                    1 <= p <= 1_000_000_000_000_000_000,
            ;
            let v: i64 = m * p;
            if v >= min && v <= max {
                out.push(v);
            }
            m += 1;
            assert(out@ =~= before + decade_minors(min as int, max as int, p as int, m as int));
        }
        k += 1;
        if k < DECADES {
            p = p * 10;
        }
    }
    out
}

} // verus!
