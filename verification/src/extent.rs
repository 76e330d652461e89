//! Running extremes of chart data: the scan that every autoscale shares.

use vstd::prelude::*;

use crate::downsample::Point;
use crate::series::{Candle, Series};

verus! {

/// The smaller of a running minimum and a new value; the value itself where
/// nothing was seen before.
pub open spec fn lower(acc: Option<i64>, v: i64) -> Option<i64> {
    match acc {
        Some(m) => Some(
            if v < m {
                v
            } else {
                m
            },
        ),
        None => Some(v),
    }
}

/// The larger of a running maximum and a new value; the value itself where
/// nothing was seen before.
pub open spec fn upper(acc: Option<i64>, v: i64) -> Option<i64> {
    match acc {
        Some(m) => Some(
            if v > m {
                v
            } else {
                m
            },
        ),
        None => Some(v),
    }
}

fn take_lower(acc: Option<i64>, v: i64) -> (r: Option<i64>)
    ensures
        r == lower(acc, v),
{
    match acc {
        Some(m) => Some(
            if v < m {
                v
            } else {
                m
            },
        ),
        None => Some(v),
    }
}

fn take_upper(acc: Option<i64>, v: i64) -> (r: Option<i64>)
    ensures
        r == upper(acc, v),
{
    match acc {
        Some(m) => Some(
            if v > m {
                v
            } else {
                m
            },
        ),
        None => Some(v),
    }
}

/// Running extremes on both axes; each is `None` until a value was seen.
#[derive(Clone, Copy, Debug, PartialEq, Eq, Structural)]
pub struct Bounds {
    pub x_lo: Option<i64>,
    pub x_hi: Option<i64>,
    pub y_lo: Option<i64>,
    pub y_hi: Option<i64>,
}

impl Bounds {
    /// Nothing seen yet.
    pub open spec fn empty() -> Bounds {
        Bounds { x_lo: None, x_hi: None, y_lo: None, y_hi: None }
    }

    /// Whether all four extremes are known.
    pub open spec fn complete(self) -> bool {
        self.x_lo is Some && self.x_hi is Some && self.y_lo is Some && self.y_hi is Some
    }

    /// The extremes after one more XY point.
    pub open spec fn with_point(self, p: Point) -> Bounds {
        Bounds {
            x_lo: lower(self.x_lo, p.0),
            x_hi: upper(self.x_hi, p.0),
            y_lo: lower(self.y_lo, p.1),
            y_hi: upper(self.y_hi, p.1),
        }
    }

    /// The extremes after one more candle: its time on x, its low and high
    /// on y.
    pub open spec fn with_candle(self, c: Candle) -> Bounds {
        Bounds {
            x_lo: lower(self.x_lo, c.t),
            x_hi: upper(self.x_hi, c.t),
            y_lo: lower(self.y_lo, c.l),
            y_hi: upper(self.y_hi, c.h),
        }
    }

    /// The extremes after a baseline value, which counts on y only.
    pub open spec fn with_baseline(self, b: Option<i64>) -> Bounds {
        match b {
            Some(v) => Bounds { y_lo: lower(self.y_lo, v), y_hi: upper(self.y_hi, v), ..self },
            None => self,
        }
    }

    /// The extremes after the first `k` of the given points.
    pub open spec fn with_points(self, pts: Seq<Point>, k: int) -> Bounds
        decreases k,
    {
        if k <= 0 {
            self
        } else {
            self.with_points(pts, k - 1).with_point(pts[k - 1])
        }
    }

    /// The extremes after the first `k` of the given candles.
    pub open spec fn with_candles(self, cs: Seq<Candle>, k: int) -> Bounds
        decreases k,
    {
        if k <= 0 {
            self
        } else {
            self.with_candles(cs, k - 1).with_candle(cs[k - 1])
        }
    }

    /// The extremes after one series: an XY series adds its points and its
    /// baseline, a candle series its candles.
    pub open spec fn with_series(self, s: Series) -> Bounds {
        if s.series_type.is_xy() {
            self.with_points(s.data_xy@, s.data_xy@.len() as int).with_baseline(s.baseline)
        } else {
            self.with_candles(s.data_ohlc@, s.data_ohlc@.len() as int)
        }
    }

    /// The extremes of the first `k` series of a chart.
    pub open spec fn of_series(series: Seq<Series>, k: int) -> Bounds
        decreases k,
    {
        if k <= 0 {
            Bounds::empty()
        } else {
            Bounds::of_series(series, k - 1).with_series(series[k - 1])
        }
    }

    /// Whether `v` lies within the known x extremes.
    pub open spec fn covers_x(self, v: i64) -> bool {
        self.x_lo is Some && self.x_hi is Some && self.x_lo->0 <= v <= self.x_hi->0
    }

    /// Whether the interval `[lo, hi]` lies within the known y extremes.
    pub open spec fn covers_y(self, lo: i64, hi: i64) -> bool {
        self.y_lo is Some && self.y_hi is Some && self.y_lo->0 <= lo && hi <= self.y_hi->0
    }

    /// Whether everything that `self` covers, `other` covers too.
    pub open spec fn within(self, other: Bounds) -> bool {
        &&& self.x_lo matches Some(v) ==> other.x_lo is Some && other.x_lo->0 <= v
        &&& self.x_hi matches Some(v) ==> other.x_hi is Some && other.x_hi->0 >= v
        &&& self.y_lo matches Some(v) ==> other.y_lo is Some && other.y_lo->0 <= v
        &&& self.y_hi matches Some(v) ==> other.y_hi is Some && other.y_hi->0 >= v
    }

    /// Scans one series on top of the extremes known so far.
    pub fn scan_series(self, s: &Series) -> (r: Bounds)
        ensures
            r == self.with_series(*s),
    {
        let mut b = self;
        if s.series_type.uses_xy() {
            let mut k: usize = 0;
            while k < s.data_xy.len()
                invariant
                    k <= s.data_xy@.len(),
                    b == self.with_points(s.data_xy@, k as int),
                decreases s.data_xy@.len() - k,
            {
                let p = s.data_xy[k];
                b = Bounds {
                    x_lo: take_lower(b.x_lo, p.0),
                    x_hi: take_upper(b.x_hi, p.0),
                    y_lo: take_lower(b.y_lo, p.1),
                    y_hi: take_upper(b.y_hi, p.1),
                };
                k += 1;
            }
            match s.baseline {
                Some(v) => Bounds {
                    x_lo: b.x_lo,
                    x_hi: b.x_hi,
                    y_lo: take_lower(b.y_lo, v),
                    y_hi: take_upper(b.y_hi, v),
                },
                None => b,
            }
        } else {
            let mut k: usize = 0;
            while k < s.data_ohlc.len()
                invariant
                    k <= s.data_ohlc@.len(),
                    b == self.with_candles(s.data_ohlc@, k as int),
                decreases s.data_ohlc@.len() - k,
            {
                let c = s.data_ohlc[k];
                b = Bounds {
                    x_lo: take_lower(b.x_lo, c.t),
                    x_hi: take_upper(b.x_hi, c.t),
                    y_lo: take_lower(b.y_lo, c.l),
                    y_hi: take_upper(b.y_hi, c.h),
                };
                k += 1;
            }
            b
        }
    }

    /// Scans all series of a chart.
    pub fn scan(series: &Vec<Series>) -> (r: Bounds)
        ensures
            r == Bounds::of_series(series@, series@.len() as int),
    {
        let mut b = Bounds { x_lo: None, x_hi: None, y_lo: None, y_hi: None };
        let mut i: usize = 0;
        while i < series.len()
            invariant
                i <= series@.len(),
                b == Bounds::of_series(series@, i as int),
            decreases series@.len() - i,
        {
            b = b.scan_series(&series[i]);
            i += 1;
        }
        b
    }
}

/// Scanning more points only widens the extremes, and every scanned point
/// lies within them.
pub proof fn lemma_points_covered(b: Bounds, pts: Seq<Point>, k: int)
    requires
        0 <= k <= pts.len(),
    ensures
        b.within(b.with_points(pts, k)),
        forall|j: int|
            0 <= j < k ==> b.with_points(pts, k).covers_x((#[trigger] pts[j]).0) && b.with_points(
                pts,
                k,
            ).covers_y(pts[j].1, pts[j].1),
    decreases k,
{
    if k > 0 {
        lemma_points_covered(b, pts, k - 1);
    }
}

/// Scanning more candles only widens the extremes, and every scanned candle
/// lies within them: its time on x, its low and high on y.
pub proof fn lemma_candles_covered(b: Bounds, cs: Seq<Candle>, k: int)
    requires
        0 <= k <= cs.len(),
    ensures
        b.within(b.with_candles(cs, k)),
        forall|j: int|
            0 <= j < k ==> b.with_candles(cs, k).covers_x((#[trigger] cs[j]).t) && b.with_candles(
                cs,
                k,
            ).covers_y(cs[j].l, cs[j].h),
    decreases k,
{
    if k > 0 {
        lemma_candles_covered(b, cs, k - 1);
    }
}

/// The extremes of a chart cover every point and every candle that its
/// series read.
pub proof fn lemma_chart_covered(series: Seq<Series>, k: int, i: int)
    requires
        0 <= i < k <= series.len(),
    ensures
        series[i].series_type.is_xy() ==> forall|j: int|
            0 <= j < series[i].data_xy@.len() ==> Bounds::of_series(series, k).covers_x(
                (#[trigger] series[i].data_xy@[j]).0,
            ) && Bounds::of_series(series, k).covers_y(
                series[i].data_xy@[j].1,
                series[i].data_xy@[j].1,
            ),
        !series[i].series_type.is_xy() ==> forall|j: int|
            0 <= j < series[i].data_ohlc@.len() ==> Bounds::of_series(series, k).covers_x(
                (#[trigger] series[i].data_ohlc@[j]).t,
            ) && Bounds::of_series(series, k).covers_y(
                series[i].data_ohlc@[j].l,
                series[i].data_ohlc@[j].h,
            ),
    decreases k,
{
    let before = Bounds::of_series(series, k - 1);
    let last = series[k - 1];
    lemma_points_covered(before, last.data_xy@, last.data_xy@.len() as int);
    lemma_candles_covered(before, last.data_ohlc@, last.data_ohlc@.len() as int);
    if i < k - 1 {
        lemma_chart_covered(series, k - 1, i);
    }
}

} // verus!
