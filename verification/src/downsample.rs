//! Point reduction for XY series (largest-triangle-three-buckets) and
//! fixed-width bucket aggregation for candles.

use vstd::arithmetic::div_mod::lemma_fundamental_div_mod_converse;
use vstd::prelude::*;
use vstd::slice::slice_to_vec;

use crate::arith::lemma_product_bound;
use crate::wide::Wide;
use crate::series::{max_int, min_int, Candle};

verus! {

/// A point in grid units: `(x, y)`.
pub type Point = (i64, i64);

/// Index of the `i`-th bucket boundary among `n` points reduced to `t`:
/// the interior `[1, n - 2]` is cut into `t - 2` buckets of `(n - 2) / (t - 2)`
/// points each, boundaries rounded down and capped at the last index.
pub open spec fn bucket_edge(n: int, t: int, i: int) -> int {
    let e = 1 + (i * (n - 2)) / (t - 2);
    if e < n - 1 {
        e
    } else {
        n - 1
    }
}

/// End (exclusive) of the range that starts at boundary `i`; never empty.
pub open spec fn bucket_stop(n: int, t: int, i: int) -> int {
    let lo = bucket_edge(n, t, i);
    let hi = bucket_edge(n, t, i + 1);
    if hi > lo + 1 {
        hi
    } else {
        lo + 1
    }
}

/// Sum of the x coordinates of `pts[lo..hi]`.
pub open spec fn sum_x(pts: Seq<Point>, lo: int, hi: int) -> int
    decreases hi - lo,
{
    if hi <= lo {
        0
    } else {
        sum_x(pts, lo, hi - 1) + pts[hi - 1].0
    }
}

/// Sum of the y coordinates of `pts[lo..hi]`.
pub open spec fn sum_y(pts: Seq<Point>, lo: int, hi: int) -> int
    decreases hi - lo,
{
    if hi <= lo {
        0
    } else {
        sum_y(pts, lo, hi - 1) + pts[hi - 1].1
    }
}

/// `k` times the cross-product magnitude of the triangle with corners `a`,
/// `p` and the mean `(sx / k, sy / k)`. Scaling by the positive count `k`
/// keeps the arithmetic in integers and leaves comparisons unchanged.
pub open spec fn tri_area(a: Point, p: Point, sx: int, sy: int, k: int) -> int {
    let v = (a.0 - p.0) * (sy - k * a.1) - (k * a.0 - sx) * (p.1 - a.1);
    if v < 0 {
        -v
    } else {
        v
    }
}

/// Index in `[lo, hi)` of the point with the largest triangle area; among
/// equal areas the lowest index.
pub open spec fn pick_in(pts: Seq<Point>, lo: int, hi: int, a: Point, sx: int, sy: int, k: int) -> int
    decreases hi - lo,
{
    if hi <= lo + 1 {
        lo
    } else {
        let b = pick_in(pts, lo, hi - 1, a, sx, sy, k);
        if tri_area(a, pts[hi - 1], sx, sy, k) > tri_area(a, pts[b], sx, sy, k) {
            hi - 1
        } else {
            b
        }
    }
}

/// Index into `pts` of the `i`-th kept point, for `0 <= i <= t - 2`: the
/// first point, then for each bucket the point that spans the largest
/// triangle with the previously kept point and the mean of the next bucket.
pub open spec fn lttb_index(pts: Seq<Point>, t: int, i: int) -> int
    decreases i,
{
    if i <= 0 {
        0
    } else {
        let n = pts.len() as int;
        let a = pts[lttb_index(pts, t, i - 1)];
        let lo = bucket_edge(n, t, i - 1);
        let hi = bucket_stop(n, t, i - 1);
        let nlo = bucket_edge(n, t, i);
        let nhi = bucket_stop(n, t, i);
        pick_in(pts, lo, hi, a, sum_x(pts, nlo, nhi), sum_y(pts, nlo, nhi), nhi - nlo)
    }
}

/// The reduced sequence.
pub open spec fn lttb_spec(pts: Seq<Point>, t: int) -> Seq<Point> {
    let n = pts.len() as int;
    if t <= 0 || n == 0 {
        Seq::empty()
    } else if t >= n || n <= 2 {
        pts
    } else if t == 1 {
        seq![pts[0]]
    } else {
        Seq::new(
            t as nat,
            |j: int|
                if j == t - 1 {
                    pts[n - 1]
                } else {
                    pts[lttb_index(pts, t, j)]
                },
        )
    }
}

/// Bucket boundaries stay inside the interior and never run backwards.
pub proof fn lemma_bucket_edge_bounds(n: int, t: int, i: int)
    requires
        2 < t < n,
        0 <= i,
    ensures
        1 <= bucket_edge(n, t, i) <= n - 1,
        bucket_edge(n, t, i) <= bucket_edge(n, t, i + 1),
        i <= t - 3 ==> bucket_edge(n, t, i) < n - 1,
        bucket_edge(n, t, i) < bucket_stop(n, t, i) <= n,
        i <= t - 3 ==> bucket_stop(n, t, i) <= n - 1,
        i <= t - 3 ==> bucket_stop(n, t, i) == bucket_edge(n, t, i + 1),
{
    let d = t - 2;
    let m = n - 2;
    let q0 = (i * m) / d;
    let q1 = ((i + 1) * m) / d;
    assert(i * m >= 0) by (nonlinear_arith)
        requires
            i >= 0,
            m >= 0,
    ;
    assert((i + 1) * m == i * m + m) by (nonlinear_arith);
    assert(q0 >= 0 && q0 <= q1) by (nonlinear_arith)
        requires
            d > 0,
            i * m >= 0,
            (i + 1) * m >= i * m,
            q0 == (i * m) / d,
            q1 == ((i + 1) * m) / d,
    ;
    if i <= t - 3 {
        assert(i * m < m * d) by (nonlinear_arith)
            requires
                0 <= i < d,
                m > 0,
        ;
        assert(q0 < m) by (nonlinear_arith)
            requires
                d > 0,
                i * m < m * d,
                q0 == (i * m) / d,
        ;
        assert((i + 1) * m <= m * d) by (nonlinear_arith)
            requires
                0 <= i + 1 <= d,
                m > 0,
        ;
        assert(q1 <= m) by (nonlinear_arith)
            requires
                d > 0,
                (i + 1) * m <= m * d,
                q1 == ((i + 1) * m) / d,
        ;
        assert(q1 >= q0 + 1) by (nonlinear_arith)
            requires
                d > 0,
                m >= d,
                i * m >= 0,
                q0 == (i * m) / d,
                q1 == (i * m + m) / d,
        ;
    }
}

/// The picked index lies in the range, no point of the range has a larger
/// area, and every earlier point of the range has a strictly smaller one.
pub proof fn lemma_pick_is_first_max(pts: Seq<Point>, lo: int, hi: int, a: Point, sx: int, sy: int, k: int)
    requires
        lo < hi,
    ensures
        lo <= pick_in(pts, lo, hi, a, sx, sy, k) < hi,
        forall|j: int|
            lo <= j < hi ==> tri_area(a, #[trigger] pts[j], sx, sy, k) <= tri_area(
                a,
                pts[pick_in(pts, lo, hi, a, sx, sy, k)],
                sx,
                sy,
                k,
            ),
        forall|j: int|
            lo <= j < pick_in(pts, lo, hi, a, sx, sy, k) ==> tri_area(a, #[trigger] pts[j], sx, sy, k)
                < tri_area(a, pts[pick_in(pts, lo, hi, a, sx, sy, k)], sx, sy, k),
    decreases hi - lo,
{
    if hi > lo + 1 {
        lemma_pick_is_first_max(pts, lo, hi - 1, a, sx, sy, k);
    }
}

/// Every kept index falls in its own bucket, so kept points appear in input
/// order and none is the last point.
pub proof fn lemma_lttb_index_in_bucket(pts: Seq<Point>, t: int, i: int)
    requires
        2 < t < pts.len(),
        0 <= i <= t - 2,
    ensures
        i == 0 ==> lttb_index(pts, t, i) == 0,
        i > 0 ==> bucket_edge(pts.len() as int, t, i - 1) <= lttb_index(pts, t, i) < bucket_stop(
            pts.len() as int,
            t,
            i - 1,
        ),
        0 <= lttb_index(pts, t, i) < pts.len() - 1,
{
    if i > 0 {
        let n = pts.len() as int;
        lemma_bucket_edge_bounds(n, t, i - 1);
        let a = pts[lttb_index(pts, t, i - 1)];
        let nlo = bucket_edge(n, t, i);
        let nhi = bucket_stop(n, t, i);
        lemma_pick_is_first_max(
            pts,
            bucket_edge(n, t, i - 1),
            bucket_stop(n, t, i - 1),
            a,
            sum_x(pts, nlo, nhi),
            sum_y(pts, nlo, nhi),
            nhi - nlo,
        );
    }
}

/// Kept indices strictly increase.
pub proof fn lemma_lttb_index_increasing(pts: Seq<Point>, t: int, i: int)
    requires
        2 < t < pts.len(),
        0 <= i < t - 2,
    ensures
        lttb_index(pts, t, i) < lttb_index(pts, t, i + 1),
{
    let n = pts.len() as int;
    lemma_lttb_index_in_bucket(pts, t, i);
    lemma_lttb_index_in_bucket(pts, t, i + 1);
    lemma_bucket_edge_bounds(n, t, i);
    if i > 0 {
        lemma_bucket_edge_bounds(n, t, i - 1);
    }
}

/// The reduced sequence has `min(n, t)` points and keeps the first and the
/// last input point, whenever at least two points are asked of more than two.
pub proof fn lemma_lttb_shape(pts: Seq<Point>, t: int)
    requires
        t >= 2,
        pts.len() > 2,
    ensures
        lttb_spec(pts, t).len() == min_len(pts.len() as int, t),
        lttb_spec(pts, t)[0] == pts[0],
        lttb_spec(pts, t).last() == pts.last(),
{
    if t > 2 && t < pts.len() {
        lemma_lttb_index_in_bucket(pts, t, 0);
    }
}

/// The smaller of two lengths.
pub open spec fn min_len(n: int, t: int) -> int {
    if n <= t {
        n
    } else {
        t
    }
}

proof fn lemma_sum_bounds(pts: Seq<Point>, lo: int, hi: int)
    requires
        0 <= lo <= hi <= pts.len(),
    ensures
        -(hi - lo) * 0x8000_0000_0000_0000 <= sum_x(pts, lo, hi) <= (hi - lo) * 0x8000_0000_0000_0000,
        -(hi - lo) * 0x8000_0000_0000_0000 <= sum_y(pts, lo, hi) <= (hi - lo) * 0x8000_0000_0000_0000,
    decreases hi - lo,
{
    if hi > lo {
        lemma_sum_bounds(pts, lo, hi - 1);
    }
}

fn edge_at(n: usize, t: usize, i: usize) -> (e: usize)
    requires
        2 < t < n,
        i <= t,
    ensures
        e == bucket_edge(n as int, t as int, i as int),
{
    let m: u128 = (n - 2) as u128;
    let d: u128 = (t - 2) as u128;
    assert(i * m <= 0xFFFF_FFFF_FFFF_FFFF * 0xFFFF_FFFF_FFFF_FFFF) by (nonlinear_arith)
        requires
            0 <= i <= 0xFFFF_FFFF_FFFF_FFFF,
            0 <= m <= 0xFFFF_FFFF_FFFF_FFFF,
    ;
    let q: u128 = ((i as u128) * m) / d;
    if q < m {
        (q + 1) as usize
    } else {
        n - 1
    }
}

fn range_sums(points: &[Point], lo: usize, hi: usize) -> (s: (i128, i128))
    requires
        lo <= hi <= points.len(),
    ensures
        s.0 == sum_x(points@, lo as int, hi as int),
        s.1 == sum_y(points@, lo as int, hi as int),
{
    let mut sx: i128 = 0;
    let mut sy: i128 = 0;
    let mut k: usize = lo;
    while k < hi
        invariant
            lo <= k <= hi <= points.len(),
            sx == sum_x(points@, lo as int, k as int),
            sy == sum_y(points@, lo as int, k as int),
        decreases hi - k,
    {
        proof {
            lemma_sum_bounds(points@, lo as int, k as int);
        }
        let p = points[k];
        sx = sx + p.0 as i128;
        sy = sy + p.1 as i128;
        k += 1;
    }
    (sx, sy)
}

/// The magnitude of a number: the number without its sign.
pub open spec fn magnitude(x: int) -> int {
    if x < 0 {
        -x
    } else {
        x
    }
}

fn magnitude_of(x: i128) -> (m: u128)
    ensures
        m == magnitude(x as int),
{
    if x >= 0 {
        x as u128
    } else {
        (-(x + 1)) as u128 + 1
    }
}

// Whether `p - q` is negative, and its magnitude.
fn signed_gap(p: i128, q: i128) -> (r: (bool, u128))
    ensures
        p - q == (if r.0 {
            -(r.1 as int)
        } else {
            r.1 as int
        }),
{
    if (p >= 0) == (q >= 0) {
        let d: i128 = p - q;
        (d < 0, magnitude_of(d))
    } else {
        (p < 0, magnitude_of(p) + magnitude_of(q))
    }
}

proof fn lemma_signed_product(x: int, y: int, u: int, w: int, nx: bool, ny: bool)
    requires
        x == (if nx {
            -u
        } else {
            u
        }),
        y == (if ny {
            -w
        } else {
            w
        }),
    ensures
        x * y == (if nx != ny {
            -(u * w)
        } else {
            u * w
        }),
{
    assert((-u) * w == -(u * w) && u * (-w) == -(u * w) && (-u) * (-w) == u * w) by (nonlinear_arith);
}

fn area_of(a: Point, p: Point, sx: i128, sy: i128, k: i128) -> (area: Wide)
    requires
        1 <= k <= 0xFFFF_FFFF_FFFF_FFFF,
        -k * 0x8000_0000_0000_0000 <= sx <= k * 0x8000_0000_0000_0000,
        -k * 0x8000_0000_0000_0000 <= sy <= k * 0x8000_0000_0000_0000,
    ensures
        area.value() == tri_area(a, p, sx as int, sy as int, k as int),
{
    proof {
        lemma_product_bound(k as int, a.0 as int, 0xFFFF_FFFF_FFFF_FFFF, 0x8000_0000_0000_0000);
        lemma_product_bound(k as int, a.1 as int, 0xFFFF_FFFF_FFFF_FFFF, 0x8000_0000_0000_0000);
    }
    let kx: i128 = k * (a.0 as i128);
    let ky: i128 = k * (a.1 as i128);
    let (nrx, mrx) = signed_gap(kx, sx);
    let (nry, mry) = signed_gap(sy, ky);
    let dx: i128 = a.0 as i128 - p.0 as i128;
    let dy: i128 = p.1 as i128 - a.1 as i128;
    let mdx: u64 = magnitude_of(dx) as u64;
    let mdy: u64 = magnitude_of(dy) as u64;
    let first = Wide::product(mdx, mry);
    let second = Wide::product(mdy, mrx);
    proof {
        lemma_signed_product(dx as int, sy - k * a.1, mdx as int, mry as int, dx < 0, nry);
        lemma_signed_product(k * a.0 - sx, dy as int, mrx as int, mdy as int, nrx, dy < 0);
        assert(mrx * mdy == mdy * mrx) by (nonlinear_arith);
        assert(first.value() >= 0 && second.value() >= 0);
    }
    if ((dx < 0) != nry) == (nrx != (dy < 0)) {
        first.distance(second)
    } else {
        first.plus(second)
    }
}

fn pick(points: &[Point], lo: usize, hi: usize, a: Point, sx: i128, sy: i128, k: i128) -> (best: usize)
    requires
        lo < hi <= points.len(),
        1 <= k <= 0xFFFF_FFFF_FFFF_FFFF,
        -k * 0x8000_0000_0000_0000 <= sx <= k * 0x8000_0000_0000_0000,
        -k * 0x8000_0000_0000_0000 <= sy <= k * 0x8000_0000_0000_0000,
    ensures
        best == pick_in(points@, lo as int, hi as int, a, sx as int, sy as int, k as int),
{
    let mut best: usize = lo;
    let mut best_area = area_of(a, points[lo], sx, sy, k);
    let mut j: usize = lo + 1;
    while j < hi
        invariant
            lo < j <= hi <= points.len(),
            1 <= k <= 0xFFFF_FFFF_FFFF_FFFF,
            -k * 0x8000_0000_0000_0000 <= sx <= k * 0x8000_0000_0000_0000,
            -k * 0x8000_0000_0000_0000 <= sy <= k * 0x8000_0000_0000_0000,
            best == pick_in(points@, lo as int, j as int, a, sx as int, sy as int, k as int),
            lo <= best < j,
            best_area.value() == tri_area(a, points@[best as int], sx as int, sy as int, k as int),
        decreases hi - j,
    {
        let area = area_of(a, points[j], sx, sy, k);
        if area.above(best_area) {
            best_area = area;
            best = j;
        }
        j += 1;
    }
    best
}

/// Reduces `points` to at most `threshold` points that keep the visual
/// shape, by the largest-triangle-three-buckets rule.
///
/// Nothing is asked for (`threshold == 0`) or given: the result is empty.
/// At least as many points are asked for as there are, or there are at most
/// two: the result is a copy. One point is asked for: the first. Otherwise
/// the first and last points are kept and one point is taken from each of
/// `threshold - 2` interior buckets. Areas are compared exactly, whatever
/// the coordinates.
pub fn lttb(points: &[Point], threshold: usize) -> (out: Vec<Point>)
    ensures
        out@ == lttb_spec(points@, threshold as int),
        threshold >= 2 && points@.len() > 2 ==> {
            &&& out@.len() == min_len(points@.len() as int, threshold as int)
            &&& out@[0] == points@[0]
            &&& out@.last() == points@.last()
        },
{
    let n = points.len();
    if threshold == 0 || n == 0 {
        return Vec::new();
    }
    if threshold >= n || n <= 2 {
        return slice_to_vec(points);
    }
    if threshold == 1 {
        let mut one: Vec<Point> = Vec::new();
        one.push(points[0]);
        assert(one@ =~= seq![points@[0]]);
        return one;
    }
    let mut sampled: Vec<Point> = Vec::new();
    sampled.push(points[0]);
    let mut a: usize = 0;
    let mut i: usize = 0;
    while i < threshold - 2
        invariant
            2 <= threshold < n,
            n == points@.len(),
            i <= threshold - 2,
            a == lttb_index(points@, threshold as int, i as int),
            a < n - 1,
            sampled@.len() == i + 1,
            forall|j: int|
                0 <= j <= i ==> sampled@[j] == points@[lttb_index(points@, threshold as int, j)],
        decreases threshold - 2 - i,
    {
        proof {
            lemma_bucket_edge_bounds(n as int, threshold as int, i as int);
            lemma_bucket_edge_bounds(n as int, threshold as int, i + 1);
        }
        let start = edge_at(n, threshold, i);
        let end = edge_at(n, threshold, i + 1);
        let next_end = edge_at(n, threshold, i + 2);
        let stop = if end > start + 1 {
            end
        } else {
            start + 1
        };
        let next_stop = if next_end > end + 1 {
            next_end
        } else {
            end + 1
        };
        let (sx, sy) = range_sums(points, end, next_stop);
        let count: i128 = (next_stop - end) as i128;
        proof {
            lemma_sum_bounds(points@, end as int, next_stop as int);
        }
        let best = pick(points, start, stop, points[a], sx, sy, count);
        proof {
            lemma_lttb_index_in_bucket(points@, threshold as int, i + 1);
        }
        sampled.push(points[best]);
        a = best;
        i += 1;
    }
    sampled.push(points[n - 1]);
    proof {
        lemma_lttb_shape(points@, threshold as int);
        assert(sampled@.len() == threshold);
        assert forall|j: int| 0 <= j < threshold implies sampled@[j] == lttb_spec(
            points@,
            threshold as int,
        )[j] by {}
        assert(sampled@ =~= lttb_spec(points@, threshold as int));
    }
    sampled
}

/// Highest high among `data[lo..hi]`, a non-empty range.
pub open spec fn window_high(data: Seq<Candle>, lo: int, hi: int) -> i64
    decreases hi - lo,
{
    if hi <= lo + 1 {
        data[lo].h
    } else {
        let rest = window_high(data, lo, hi - 1);
        if data[hi - 1].h > rest {
            data[hi - 1].h
        } else {
            rest
        }
    }
}

/// Lowest low among `data[lo..hi]`, a non-empty range.
pub open spec fn window_low(data: Seq<Candle>, lo: int, hi: int) -> i64
    decreases hi - lo,
{
    if hi <= lo + 1 {
        data[lo].l
    } else {
        let rest = window_low(data, lo, hi - 1);
        if data[hi - 1].l < rest {
            data[hi - 1].l
        } else {
            rest
        }
    }
}

/// Number of windows of width `b` that cover `n` candles: `n / b`, rounded up.
pub open spec fn bucket_count(n: int, b: int) -> int {
    (n + b - 1) / b
}

/// End (exclusive) of window `w`: the last window may be shorter.
pub open spec fn window_end(n: int, b: int, w: int) -> int {
    min_int((w + 1) * b, n)
}

/// The candle that stands for window `w`: time and open of its first
/// candle, close of its last, the extremes of all of them.
pub open spec fn bucket_candle(data: Seq<Candle>, b: int, w: int) -> Candle {
    let lo = w * b;
    let hi = window_end(data.len() as int, b, w);
    Candle {
        t: data[lo].t,
        o: data[lo].o,
        h: window_high(data, lo, hi),
        l: window_low(data, lo, hi),
        c: data[hi - 1].c,
    }
}

/// The aggregated sequence.
pub open spec fn aggregate_spec(data: Seq<Candle>, b: int) -> Seq<Candle> {
    if b <= 1 || data.len() <= 2 {
        data
    } else {
        Seq::new(bucket_count(data.len() as int, b) as nat, |w: int| bucket_candle(data, b, w))
    }
}

/// The window extremes bound every candle of the window, and each is
/// attained by one of them.
pub proof fn lemma_window_extremes(data: Seq<Candle>, lo: int, hi: int)
    requires
        0 <= lo < hi <= data.len(),
    ensures
        forall|k: int| lo <= k < hi ==> (#[trigger] data[k]).h <= window_high(data, lo, hi),
        forall|k: int| lo <= k < hi ==> (#[trigger] data[k]).l >= window_low(data, lo, hi),
        exists|k: int| lo <= k < hi && (#[trigger] data[k]).h == window_high(data, lo, hi),
        exists|k: int| lo <= k < hi && (#[trigger] data[k]).l == window_low(data, lo, hi),
    decreases hi - lo,
{
    if hi > lo + 1 {
        lemma_window_extremes(data, lo, hi - 1);
        let kh = choose|k: int| lo <= k < hi - 1 && (#[trigger] data[k]).h == window_high(data, lo, hi - 1);
        let kl = choose|k: int| lo <= k < hi - 1 && (#[trigger] data[k]).l == window_low(data, lo, hi - 1);
        if data[hi - 1].h > window_high(data, lo, hi - 1) {
            assert(data[hi - 1].h == window_high(data, lo, hi));
        } else {
            assert(data[kh].h == window_high(data, lo, hi));
        }
        if data[hi - 1].l < window_low(data, lo, hi - 1) {
            assert(data[hi - 1].l == window_low(data, lo, hi));
        } else {
            assert(data[kl].l == window_low(data, lo, hi));
        }
    } else {
        assert(data[lo].h == window_high(data, lo, hi));
        assert(data[lo].l == window_low(data, lo, hi));
    }
}

/// Window `w` of `n` candles is a non-empty range inside the data.
pub proof fn lemma_window_range(n: int, b: int, w: int)
    requires
        b >= 1,
        0 <= w < bucket_count(n, b),
    ensures
        0 <= w * b < window_end(n, b, w) <= n,
{
    assert(w * b < n && w * b >= 0 && (w + 1) * b == w * b + b) by (nonlinear_arith)
        requires
            b >= 1,
            0 <= w < (n + b - 1) / b,
    ;
}

/// Over valid candles, the candle of every window is valid, and its high
/// and low bound the opens and closes of every candle in the window.
pub proof fn lemma_bucket_keeps_ohlc(data: Seq<Candle>, b: int, w: int)
    requires
        b >= 1,
        0 <= w < bucket_count(data.len() as int, b),
        forall|k: int| 0 <= k < data.len() ==> (#[trigger] data[k]).valid(),
    ensures
        bucket_candle(data, b, w).valid(),
        forall|k: int|
            w * b <= k < window_end(data.len() as int, b, w) ==> {
                &&& bucket_candle(data, b, w).h >= max_int(
                    (#[trigger] data[k]).o as int,
                    data[k].c as int,
                )
                &&& bucket_candle(data, b, w).l <= min_int(data[k].o as int, data[k].c as int)
            },
{
    let n = data.len() as int;
    lemma_window_range(n, b, w);
    let lo = w * b;
    let hi = window_end(n, b, w);
    lemma_window_extremes(data, lo, hi);
    assert(data[lo].valid());
    assert(data[hi - 1].valid());
    assert forall|k: int| lo <= k < hi implies {
        &&& bucket_candle(data, b, w).h >= max_int((#[trigger] data[k]).o as int, data[k].c as int)
        &&& bucket_candle(data, b, w).l <= min_int(data[k].o as int, data[k].c as int)
    } by {
        assert(data[k].valid());
    }
}

/// Over candles in time order, the aggregated candles are in time order.
pub proof fn lemma_buckets_keep_time_order(data: Seq<Candle>, b: int, v: int, w: int)
    requires
        b >= 1,
        0 <= v <= w < bucket_count(data.len() as int, b),
        forall|i: int, j: int| 0 <= i <= j < data.len() ==> data[i].t <= data[j].t,
    ensures
        bucket_candle(data, b, v).t <= bucket_candle(data, b, w).t,
{
    lemma_window_range(data.len() as int, b, v);
    lemma_window_range(data.len() as int, b, w);
    assert(v * b <= w * b) by (nonlinear_arith)
        requires
            v <= w,
            b >= 1,
    ;
}

/// The number of windows is the least count of windows that covers all
/// candles.
pub proof fn lemma_bucket_count_bounds(n: int, b: int)
    requires
        n >= 1,
        b >= 1,
    ensures
        bucket_count(n, b) >= 1,
        (bucket_count(n, b) - 1) * b < n <= bucket_count(n, b) * b,
{
    let c = (n + b - 1) / b;
    assert(c * b <= n + b - 1 < c * b + b) by (nonlinear_arith)
        requires
            c == (n + b - 1) / b,
            n + b - 1 >= 0,
            b >= 1,
    ;
    assert((c - 1) * b == c * b - b) by (nonlinear_arith);
    assert(c >= 1) by (nonlinear_arith)
        requires
            n + b - 1 < c * b + b,
            n >= 1,
            b >= 1,
    ;
}

/// A count of windows that covers all candles, and with one window less
/// does not, is the number of windows.
pub proof fn lemma_bucket_count_is(n: int, b: int, c: int)
    requires
        n >= 1,
        b >= 1,
        (c - 1) * b < n <= c * b,
    ensures
        bucket_count(n, b) == c,
{
    assert((c - 1) * b == c * b - b) by (nonlinear_arith);
    lemma_fundamental_div_mod_converse(n + b - 1, b, c, n + b - 1 - c * b);
}

/// The extremes of a range are those of its two parts.
pub proof fn lemma_window_join(data: Seq<Candle>, x: int, y: int, z: int)
    requires
        0 <= x < y < z <= data.len(),
    ensures
        window_high(data, x, z) == (if window_high(data, y, z) > window_high(data, x, y) {
            window_high(data, y, z)
        } else {
            window_high(data, x, y)
        }),
        window_low(data, x, z) == (if window_low(data, y, z) < window_low(data, x, y) {
            window_low(data, y, z)
        } else {
            window_low(data, x, y)
        }),
    decreases z - y,
{
    if z - 1 > y {
        lemma_window_join(data, x, y, z - 1);
    }
}

/// Over candles that are the windows of width `a` of `data`, the extremes
/// of the windows from `v` up to but not `j` are the extremes of the data
/// that those windows cover.
pub proof fn lemma_extremes_of_windows(data: Seq<Candle>, inner: Seq<Candle>, a: int, v: int, j: int)
    requires
        a >= 1,
        data.len() >= 1,
        inner.len() == bucket_count(data.len() as int, a),
        forall|w: int| 0 <= w < inner.len() ==> inner[w] == bucket_candle(data, a, w),
        0 <= v < j <= inner.len(),
    ensures
        window_high(inner, v, j) == window_high(
            data,
            v * a,
            window_end(data.len() as int, a, j - 1),
        ),
        window_low(inner, v, j) == window_low(data, v * a, window_end(data.len() as int, a, j - 1)),
    decreases j - v,
{
    let n = data.len() as int;
    lemma_window_range(n, a, j - 1);
    if j > v + 1 {
        lemma_extremes_of_windows(data, inner, a, v, j - 1);
        lemma_window_range(n, a, j - 2);
        assert((j - 2 + 1) * a == (j - 1) * a);
        assert(window_end(n, a, j - 2) == (j - 1) * a);
        assert(v * a < (j - 1) * a) by (nonlinear_arith)
            requires
                v < j - 1,
                a >= 1,
        ;
        assert(v * a >= 0) by (nonlinear_arith)
            requires
                v >= 0,
                a >= 1,
        ;
        lemma_window_join(data, v * a, (j - 1) * a, window_end(n, a, j - 1));
        assert(inner[j - 1] == bucket_candle(data, a, j - 1));
    } else {
        assert(inner[v] == bucket_candle(data, a, v));
    }
}

/// Merging by `a` and then by `b` is merging by `a * b`. The one exception
/// follows from the rule that two candles or fewer are never merged: where
/// the first merge leaves exactly two candles, the second leaves them, and
/// a merge by `a * b` makes one of them.
pub proof fn lemma_merge_twice(data: Seq<Candle>, a: int, b: int)
    requires
        a >= 1,
        b >= 1,
        !(data.len() > 2 && a >= 2 && b >= 2 && bucket_count(data.len() as int, a) == 2),
    ensures
        aggregate_spec(aggregate_spec(data, a), b) == aggregate_spec(data, a * b),
{
    let n = data.len() as int;
    assert(a * 1 == a && 1 * b == b) by (nonlinear_arith);
    if a == 1 || b == 1 || n <= 2 {
        if n <= 2 {
            assert(aggregate_spec(data, a) == data);
        }
    } else {
        assert(a * b >= 2 * a) by (nonlinear_arith)
            requires
                a >= 2,
                b >= 2,
        ;
        let inner = aggregate_spec(data, a);
        let m = bucket_count(n, a);
        lemma_bucket_count_bounds(n, a);
        assert(inner.len() == m);
        if m == 1 {
            assert(m * a == a) by (nonlinear_arith)
                requires
                    m == 1,
            ;
            assert(n <= a * b);
            assert((1 - 1) * (a * b) == 0) by (nonlinear_arith);
            assert(1 * (a * b) == a * b) by (nonlinear_arith);
            lemma_bucket_count_is(n, a * b, 1);
            assert(0 * a == 0 && 0 * (a * b) == 0) by (nonlinear_arith);
            assert((0 + 1) * a == a && (0 + 1) * (a * b) == a * b) by (nonlinear_arith);
            assert(bucket_candle(data, a, 0) == bucket_candle(data, a * b, 0));
            assert(aggregate_spec(inner, b) =~= aggregate_spec(data, a * b));
        } else {
            let k = bucket_count(m, b);
            lemma_bucket_count_bounds(m, b);
            assert(k * (a * b) == (k * b) * a && (k - 1) * (a * b) == ((k - 1) * b) * a)
                by (nonlinear_arith);
            assert(n <= k * (a * b)) by (nonlinear_arith)
                requires
                    n <= m * a,
                    m <= k * b,
                    k * (a * b) == (k * b) * a,
                    a >= 1,
            ;
            assert((k - 1) * (a * b) < n) by (nonlinear_arith)
                requires
                    (m - 1) * a < n,
                    (k - 1) * b <= m - 1,
                    (k - 1) * (a * b) == ((k - 1) * b) * a,
                    a >= 1,
            ;
            lemma_bucket_count_is(n, a * b, k);
            let outer = aggregate_spec(inner, b);
            let direct = aggregate_spec(data, a * b);
            assert(outer.len() == k && direct.len() == k);
            assert forall|v: int| 0 <= v < k implies outer[v] == direct[v] by {
                lemma_merged_window(data, inner, a, b, v);
            }
            assert(outer =~= direct);
        }
    }
}

proof fn lemma_merged_window(data: Seq<Candle>, inner: Seq<Candle>, a: int, b: int, v: int)
    requires
        a >= 1,
        b >= 1,
        data.len() >= 1,
        inner.len() == bucket_count(data.len() as int, a),
        forall|w: int| 0 <= w < inner.len() ==> inner[w] == bucket_candle(data, a, w),
        0 <= v < bucket_count(inner.len() as int, b),
    ensures
        bucket_candle(inner, b, v) == bucket_candle(data, a * b, v),
{
    let n = data.len() as int;
    let m = inner.len() as int;
    lemma_bucket_count_bounds(n, a);
    lemma_window_range(m, b, v);
    let lo = v * b;
    let hi = window_end(m, b, v);
    lemma_extremes_of_windows(data, inner, a, lo, hi);
    lemma_window_range(n, a, lo);
    lemma_window_range(n, a, hi - 1);
    assert(inner[lo] == bucket_candle(data, a, lo));
    assert(inner[hi - 1] == bucket_candle(data, a, hi - 1));
    assert(v * (a * b) == lo * a) by (nonlinear_arith)
        requires
            lo == v * b,
    ;
    assert((v + 1) * (a * b) == ((v + 1) * b) * a) by (nonlinear_arith);
    assert((hi - 1 + 1) * a == hi * a);
    // The end of the last covered window is the end of the merged window.
    if (v + 1) * b <= m {
        assert(hi == (v + 1) * b);
    } else {
        assert(hi == m);
        assert(hi * a >= n);
        assert(((v + 1) * b) * a >= hi * a) by (nonlinear_arith)
            requires
                (v + 1) * b > hi,
                a >= 1,
        ;
    }
    assert(window_end(n, a, hi - 1) == window_end(n, a * b, v));
}

/// Aggregation with windows of one candle changes nothing.
pub proof fn lemma_unit_bucket_is_identity(data: Seq<Candle>)
    ensures
        aggregate_spec(data, 1) == data,
{
}

/// Aggregates candles into consecutive windows of `bucket` candles, the
/// last one possibly shorter. Each window becomes one candle: time and open
/// of its first candle, close of its last, highest high and lowest low.
/// With `bucket <= 1` or at most two candles the result is a copy.
pub fn aggregate_ohlc_buckets(data: &[Candle], bucket: usize) -> (out: Vec<Candle>)
    ensures
        out@ == aggregate_spec(data@, bucket as int),
        bucket <= 1 || data@.len() <= 2 ==> out@ == data@,
        bucket > 1 && data@.len() > 2 ==> out@.len() == bucket_count(
            data@.len() as int,
            bucket as int,
        ),
{
    let n = data.len();
    if bucket <= 1 || n <= 2 {
        return slice_to_vec(data);
    }
    let mut out: Vec<Candle> = Vec::new();
    let mut i: usize = 0;
    assert(0 * bucket == 0);
    while i < n
        invariant
            bucket > 1,
            n == data@.len(),
            n > 2,
            i <= n,
            i < n ==> i == out@.len() * bucket,
            i == n ==> out@.len() == bucket_count(n as int, bucket as int),
            out@.len() <= bucket_count(n as int, bucket as int),
            forall|w: int| 0 <= w < out@.len() ==> out@[w] == bucket_candle(data@, bucket as int, w),
        decreases n - i,
    {
        let ghost w = out@.len() as int;
        let j: usize = if bucket >= n - i {
            n
        } else {
            i + bucket
        };
        proof {
            assert((w + 1) * bucket == w * bucket + bucket) by (nonlinear_arith);
            assert(j == window_end(n as int, bucket as int, w));
            assert(w < bucket_count(n as int, bucket as int) && (j == n ==> w + 1 == bucket_count(
                n as int,
                bucket as int,
            ))) by (nonlinear_arith)
                requires
                    bucket > 1,
                    w >= 0,
                    w * bucket < n,
                    j == n ==> n <= w * bucket + bucket,
                    bucket_count(n as int, bucket as int) == (n + bucket - 1) / (bucket as int),
            ;
        }
        let first = data[i];
        let last = data[j - 1];
        let mut low: i64 = first.l;
        let mut high: i64 = first.h;
        let mut k: usize = i + 1;
        while k < j
            invariant
                i < k <= j <= n,
                n == data@.len(),
                low == window_low(data@, i as int, k as int),
                high == window_high(data@, i as int, k as int),
            decreases j - k,
        {
            let cur = data[k];
            if cur.l < low {
                low = cur.l;
            }
            if cur.h > high {
                high = cur.h;
            }
            k += 1;
        }
        out.push(Candle { t: first.t, o: first.o, h: high, l: low, c: last.c });
        i = j;
    }
    proof {
        assert(out@ =~= aggregate_spec(data@, bucket as int));
    }
    out
}

} // verus!
