//! Indicators and overlays: series derived from a chart's data, and the
//! overlay state that pointer events change.

use vstd::prelude::*;

use crate::arith::trunc_div;
use crate::chart::Chart;
use crate::downsample::Point;
use crate::series::{Candle, Series, SeriesType};

verus! {

/// Parameters of an indicator.
#[derive(Clone, Copy, Debug, PartialEq, Eq, Structural)]
pub struct IndicatorParams {
    pub period: usize,
}

impl Default for IndicatorParams {
    fn default() -> (r: Self)
        ensures
            r.period == 14,
    {
        IndicatorParams { period: 14 }
    }
}

/// Sum of `ys[lo..hi]`.
pub open spec fn sum_values(ys: Seq<i64>, lo: int, hi: int) -> int
    decreases hi - lo,
{
    if hi <= lo {
        0
    } else {
        sum_values(ys, lo, hi - 1) + ys[hi - 1]
    }
}

/// The simple moving average over windows of `p` values: one point per
/// full window, at the x of the window's last value, with the mean of the
/// window's y values rounded toward zero. Nothing for `p == 0` or fewer
/// than `p` values.
pub open spec fn sma_spec(xs: Seq<i64>, ys: Seq<i64>, p: int) -> Seq<Point> {
    if p <= 0 || ys.len() < p {
        Seq::empty()
    } else {
        Seq::new(
            (ys.len() - p + 1) as nat,
            |j: int| (xs[j + p - 1], trunc_div(sum_values(ys, j, j + p), p) as i64),
        )
    }
}

/// The x coordinates of points.
pub open spec fn xs_of(pts: Seq<Point>) -> Seq<i64> {
    Seq::new(pts.len(), |i: int| pts[i].0)
}

/// The y coordinates of points.
pub open spec fn ys_of(pts: Seq<Point>) -> Seq<i64> {
    Seq::new(pts.len(), |i: int| pts[i].1)
}

/// The times of candles given as `(t, o, h, l, c)`.
pub open spec fn times_of(rows: Seq<(i64, i64, i64, i64, i64)>) -> Seq<i64> {
    Seq::new(rows.len(), |i: int| rows[i].0)
}

/// The closes of candles given as `(t, o, h, l, c)`.
pub open spec fn closes_of(rows: Seq<(i64, i64, i64, i64, i64)>) -> Seq<i64> {
    Seq::new(rows.len(), |i: int| rows[i].4)
}

/// The candles of a series as `(t, o, h, l, c)` rows.
pub open spec fn rows_of(cs: Seq<Candle>) -> Seq<(i64, i64, i64, i64, i64)> {
    Seq::new(cs.len(), |i: int| (cs[i].t, cs[i].o, cs[i].h, cs[i].l, cs[i].c))
}

/// A sum of 64-bit values is bounded by their number times the bounds of
/// one, and splits off its first value.
pub proof fn lemma_sum_values(ys: Seq<i64>, lo: int, hi: int)
    requires
        0 <= lo <= hi <= ys.len(),
    ensures
        (hi - lo) * i64::MIN <= sum_values(ys, lo, hi) <= (hi - lo) * i64::MAX,
        lo < hi ==> sum_values(ys, lo, hi) == ys[lo] + sum_values(ys, lo + 1, hi),
    decreases hi - lo,
{
    if lo < hi {
        lemma_sum_values(ys, lo, hi - 1);
        if lo + 1 < hi {
            lemma_sum_values(ys, lo + 1, hi - 1);
        }
        assert((hi - lo) * i64::MIN == (hi - 1 - lo) * i64::MIN + i64::MIN) by (nonlinear_arith);
        assert((hi - lo) * i64::MAX == (hi - 1 - lo) * i64::MAX + i64::MAX) by (nonlinear_arith);
    }
}

/// The mean of a window lies within the 64-bit range.
pub proof fn lemma_mean_fits(ys: Seq<i64>, lo: int, hi: int)
    requires
        0 <= lo < hi <= ys.len(),
    ensures
        i64::MIN <= trunc_div(sum_values(ys, lo, hi), hi - lo) <= i64::MAX,
{
    lemma_sum_values(ys, lo, hi);
    let s = sum_values(ys, lo, hi);
    let p = hi - lo;
    if s >= 0 {
        assert(s / p <= i64::MAX) by (nonlinear_arith)
            requires
                0 <= s <= p * i64::MAX,
                p > 0,
        ;
        assert(s / p >= 0) by (nonlinear_arith)
            requires
                0 <= s,
                p > 0,
        ;
    } else {
        assert((-s) / p <= -i64::MIN) by (nonlinear_arith)
            requires
                0 <= -s <= p * (-i64::MIN),
                p > 0,
        ;
        assert((-s) / p >= 0) by (nonlinear_arith)
            requires
                0 <= -s,
                p > 0,
        ;
    }
}

fn sma_core(xs: &Vec<i64>, ys: &Vec<i64>, period: usize) -> (out: Vec<Point>)
    requires
        xs@.len() == ys@.len(),
    ensures
        out@ == sma_spec(xs@, ys@, period as int),
{
    let n = ys.len();
    let mut out: Vec<Point> = Vec::new();
    if period == 0 || n < period {
        return out;
    }
    let mut sum: i128 = 0;
    let mut i: usize = 0;
    while i < n
        invariant
            1 <= period <= n,
            n == ys@.len(),
            n == xs@.len(),
            i <= n,
            i < period ==> sum == sum_values(ys@, 0, i as int) && out@.len() == 0,
            i >= period ==> sum == sum_values(ys@, i - period, i as int) && out@.len() == i - period
                + 1,
            forall|j: int|
                0 <= j < out@.len() ==> out@[j] == (
                    xs@[j + period - 1],
                    trunc_div(sum_values(ys@, j, j + period), period as int) as i64,
                ),
        decreases n - i,
    {
        proof {
            if i >= period {
                lemma_sum_values(ys@, i - period, i as int);
                lemma_sum_values(ys@, i - period + 1, i as int);
                lemma_sum_values(ys@, i - period + 1, i + 1);
                lemma_mean_fits(ys@, i - period + 1, i + 1);
            } else {
                lemma_sum_values(ys@, 0, i as int);
                lemma_sum_values(ys@, 0, i + 1);
                if i + 1 == period {
                    lemma_mean_fits(ys@, 0, i + 1);
                }
            }
            assert(period * i64::MAX <= 0xFFFF_FFFF_FFFF_FFFF * 0x7FFF_FFFF_FFFF_FFFF
                && period * i64::MIN >= 0xFFFF_FFFF_FFFF_FFFF * (-0x8000_0000_0000_0000)
                && i * i64::MAX <= 0xFFFF_FFFF_FFFF_FFFF * 0x7FFF_FFFF_FFFF_FFFF
                && i * i64::MIN >= 0xFFFF_FFFF_FFFF_FFFF * (-0x8000_0000_0000_0000)
                && (period - 1) * i64::MAX <= 0xFFFF_FFFF_FFFF_FFFF * 0x7FFF_FFFF_FFFF_FFFF
                && (period - 1) * i64::MIN >= 0xFFFF_FFFF_FFFF_FFFF * (-0x8000_0000_0000_0000))
                by (nonlinear_arith)
                requires
                    1 <= period <= 0xFFFF_FFFF_FFFF_FFFF,
                    0 <= i <= 0xFFFF_FFFF_FFFF_FFFF,
            ;
        }
        if i >= period {
            sum = sum - ys[i - period] as i128;
        }
        sum = sum + ys[i] as i128;
        if i + 1 >= period {
            let mean: i128 = if sum >= 0 {
                sum / (period as i128)
            } else {
                -((-sum) / (period as i128))
            };
            out.push((xs[i], mean as i64));
        }
        i += 1;
    }
    assert(out@ =~= sma_spec(xs@, ys@, period as int));
    out
}

/// Simple moving average over `(x, y)` points.
pub fn sma_xy(data: &[Point], period: usize) -> (out: Vec<Point>)
    ensures
        out@ == sma_spec(xs_of(data@), ys_of(data@), period as int),
{
    let mut xs: Vec<i64> = Vec::new();
    let mut ys: Vec<i64> = Vec::new();
    let mut i: usize = 0;
    while i < data.len()
        invariant
            i <= data@.len(),
            xs@ == xs_of(data@.take(i as int)),
            ys@ == ys_of(data@.take(i as int)),
        decreases data@.len() - i,
    {
        let p = data[i];
        xs.push(p.0);
        ys.push(p.1);
        i += 1;
        assert(xs@ =~= xs_of(data@.take(i as int)));
        assert(ys@ =~= ys_of(data@.take(i as int)));
    }
    assert(data@.take(i as int) =~= data@);
    sma_core(&xs, &ys, period)
}

/// Simple moving average over the closes of candles given as
/// `(t, o, h, l, c)`.
pub fn sma_candles(data: &[(i64, i64, i64, i64, i64)], period: usize) -> (out: Vec<Point>)
    ensures
        out@ == sma_spec(times_of(data@), closes_of(data@), period as int),
{
    let mut xs: Vec<i64> = Vec::new();
    let mut ys: Vec<i64> = Vec::new();
    let mut i: usize = 0;
    while i < data.len()
        invariant
            i <= data@.len(),
            xs@ == times_of(data@.take(i as int)),
            ys@ == closes_of(data@.take(i as int)),
        decreases data@.len() - i,
    {
        let row = data[i];
        xs.push(row.0);
        ys.push(row.4);
        i += 1;
        assert(xs@ =~= times_of(data@.take(i as int)));
        assert(ys@ =~= closes_of(data@.take(i as int)));
    }
    assert(data@.take(i as int) =~= data@);
    sma_core(&xs, &ys, period)
}

/// The moving average of a series: over its points if it is an XY series,
/// over the closes of its candles if not.
pub open spec fn sma_of_series(s: Series, p: int) -> Seq<Point> {
    if s.series_type.is_xy() {
        sma_spec(xs_of(s.data_xy@), ys_of(s.data_xy@), p)
    } else {
        sma_spec(times_of(rows_of(s.data_ohlc@)), closes_of(rows_of(s.data_ohlc@)), p)
    }
}

/// Computes the line series of the moving average of a series.
pub fn sma_series(input: &Series, period: usize) -> (s: Series)
    ensures
        s.series_type == SeriesType::Line,
        s.data_xy@ == sma_of_series(*input, period as int),
        s.data_ohlc@.len() == 0,
        s.baseline is None,
{
    if input.series_type.uses_xy() {
        let xy = sma_xy(input.data_xy.as_slice(), period);
        Series::with_data(SeriesType::Line, xy)
    } else {
        let mut rows: Vec<(i64, i64, i64, i64, i64)> = Vec::new();
        let mut i: usize = 0;
        while i < input.data_ohlc.len()
            invariant
                i <= input.data_ohlc@.len(),
                rows@ == rows_of(input.data_ohlc@.take(i as int)),
            decreases input.data_ohlc@.len() - i,
        {
            let c = input.data_ohlc[i];
            rows.push((c.t, c.o, c.h, c.l, c.c));
            i += 1;
            assert(rows@ =~= rows_of(input.data_ohlc@.take(i as int)));
        }
        assert(input.data_ohlc@.take(i as int) =~= input.data_ohlc@);
        let xy = sma_candles(rows.as_slice(), period);
        Series::with_data(SeriesType::Line, xy)
    }
}

/// The first XY series among the first `k`, if any.
pub open spec fn first_xy(series: Seq<Series>, k: int) -> Option<int>
    decreases k,
{
    if k <= 0 {
        None
    } else {
        match first_xy(series, k - 1) {
            Some(i) => Some(i),
            None => if series[k - 1].series_type.is_xy() {
                Some(k - 1)
            } else {
                None
            },
        }
    }
}

/// The series that an overlay reads: the first XY series, else the first
/// series of all.
pub open spec fn overlay_source(series: Seq<Series>) -> Option<int> {
    match first_xy(series, series.len() as int) {
        Some(i) => Some(i),
        None => if series.len() > 0 {
            Some(0)
        } else {
            None
        },
    }
}

fn find_source(series: &Vec<Series>) -> (r: Option<usize>)
    ensures
        match r {
            Some(i) => overlay_source(series@) == Some(i as int) && i < series@.len(),
            None => overlay_source(series@) is None,
        },
{
    let mut i: usize = 0;
    while i < series.len()
        invariant
            i <= series@.len(),
            first_xy(series@, i as int) is None,
        decreases series@.len() - i,
    {
        if series[i].series_type.uses_xy() {
            proof {
                lemma_first_xy_stays(series@, i + 1, series@.len() as int);
            }
            return Some(i);
        }
        i += 1;
    }
    if series.len() > 0 {
        Some(0)
    } else {
        None
    }
}

proof fn lemma_first_xy_stays(series: Seq<Series>, k: int, n: int)
    requires
        0 < k <= n,
        first_xy(series, k) is Some,
    ensures
        first_xy(series, n) == first_xy(series, k),
    decreases n - k,
{
    if k < n {
        lemma_first_xy_stays(series, k, n - 1);
    }
}

/// An indicator turns a series into a derived one, most often a line.
pub trait Indicator {
    fn id(&self) -> &'static str;

    fn compute(&self, input: &Series, params: &IndicatorParams) -> Series;
}

/// A pointer event in chart coordinates.
#[derive(Clone, Copy, Debug, PartialEq, Eq, Structural)]
pub enum OverlayEvent {
    PointerDown { x: i64, y: i64 },
    PointerUp { x: i64, y: i64 },
    PointerMove { x: i64, y: i64 },
}

/// An overlay computes series that are drawn above those of the chart,
/// and may change its state on pointer events.
pub trait Overlay {
    fn id(&self) -> &'static str;

    fn compute(&self, chart: &Chart) -> Vec<Series>;

    fn handle_event(&mut self, evt: &OverlayEvent, chart: &Chart);
}

/// The simple moving average as an indicator.
pub struct SmaIndicator;

impl Indicator for SmaIndicator {
    fn id(&self) -> (r: &'static str)
        ensures
            r@ == "sma"@,
    {
        "sma"
    }

    fn compute(&self, input: &Series, params: &IndicatorParams) -> (s: Series)
        ensures
            s.series_type == SeriesType::Line,
            s.data_xy@ == sma_of_series(*input, params.period as int),
    {
        sma_series(input, params.period)
    }
}

/// The simple moving average under another name, as a plugin would offer it.
pub struct Sma;

impl Indicator for Sma {
    fn id(&self) -> (r: &'static str)
        ensures
            r@ == "sma"@,
    {
        "sma"
    }

    fn compute(&self, input: &Series, params: &IndicatorParams) -> (s: Series)
        ensures
            s.series_type == SeriesType::Line,
            s.data_xy@ == sma_of_series(*input, params.period as int),
    {
        sma_series(input, params.period)
    }
}

/// An overlay that draws the moving average of the chart's first XY
/// series, or of its first candle series where it has no XY series.
#[derive(Clone, Copy, Debug, PartialEq, Eq, Structural)]
pub struct SmaOverlay {
    pub period: usize,
}

impl SmaOverlay {
    /// The period in use: the configured one, at least one.
    pub open spec fn effective_period(self) -> int {
        if self.period < 1 {
            1
        } else {
            self.period as int
        }
    }
}

impl Overlay for SmaOverlay {
    fn id(&self) -> (r: &'static str)
        ensures
            r@ == "sma_overlay"@,
    {
        "sma_overlay"
    }

    fn compute(&self, chart: &Chart) -> (out: Vec<Series>)
        ensures
            match overlay_source(chart.series@) {
                Some(i) => out@.len() == 1 && out@[0].series_type == SeriesType::Line
                    && out@[0].data_xy@ == sma_of_series(chart.series@[i], self.effective_period()),
                None => out@.len() == 0,
            },
    {
        let p = if self.period < 1 {
            1
        } else {
            self.period
        };
        let mut out: Vec<Series> = Vec::new();
        match find_source(&chart.series) {
            Some(i) => {
                out.push(sma_series(&chart.series[i], p));
            },
            None => {},
        }
        out
    }

    fn handle_event(&mut self, evt: &OverlayEvent, chart: &Chart)
        ensures
            *final(self) == *old(self),
    {
    }
}

/// A horizontal guide line: a pointer press sets its height, and it is
/// drawn across the chart's current x range.
#[derive(Clone, Copy, Debug, PartialEq, Eq, Structural)]
pub struct HvLineOverlay {
    pub y: Option<i64>,
}

impl HvLineOverlay {
    /// A guide line that is not set yet.
    pub fn new() -> (r: Self)
        ensures
            r.y is None,
    {
        HvLineOverlay { y: None }
    }

    /// The state after an event: a pointer press sets the height, any
    /// other event changes nothing.
    pub open spec fn after(self, evt: OverlayEvent) -> HvLineOverlay {
        match evt {
            OverlayEvent::PointerDown { x, y } => HvLineOverlay { y: Some(y) },
            _ => self,
        }
    }
}

impl Overlay for HvLineOverlay {
    fn id(&self) -> (r: &'static str)
        ensures
            r@ == "hv_line"@,
    {
        "hv_line"
    }

    fn compute(&self, chart: &Chart) -> (out: Vec<Series>)
        ensures
            match self.y {
                Some(y) => out@.len() == 1 && out@[0].series_type == SeriesType::Line
                    && out@[0].data_xy@ == seq![(chart.x_axis.min, y), (chart.x_axis.max, y)],
                None => out@.len() == 0,
            },
    {
        let mut out: Vec<Series> = Vec::new();
        match self.y {
            Some(y) => {
                let mut line: Vec<Point> = Vec::new();
                line.push((chart.x_axis.min, y));
                line.push((chart.x_axis.max, y));
                assert(line@ =~= seq![(chart.x_axis.min, y), (chart.x_axis.max, y)]);
                out.push(Series::with_data(SeriesType::Line, line));
            },
            None => {},
        }
        out
    }

    fn handle_event(&mut self, evt: &OverlayEvent, chart: &Chart)
        ensures
            *final(self) == old(self).after(*evt),
    {
        match *evt {
            OverlayEvent::PointerDown { x, y } => {
                self.y = Some(y);
            },
            _ => {},
        }
    }
}

/// The overlays a chart can carry.
#[derive(Clone, Copy, Debug, PartialEq, Eq, Structural)]
pub enum OverlayKind {
    Sma(SmaOverlay),
    HvLine(HvLineOverlay),
}

impl OverlayKind {
    /// The overlay after an event.
    pub open spec fn after(self, evt: OverlayEvent) -> OverlayKind {
        match self {
            OverlayKind::Sma(o) => self,
            OverlayKind::HvLine(o) => OverlayKind::HvLine(o.after(evt)),
        }
    }

    /// Handles one event and gives the overlay's next state.
    pub fn handle(self, evt: &OverlayEvent) -> (next: OverlayKind)
        ensures
            next == self.after(*evt),
    {
        match self {
            OverlayKind::Sma(o) => OverlayKind::Sma(o),
            OverlayKind::HvLine(o) => match *evt {
                OverlayEvent::PointerDown { x, y } => OverlayKind::HvLine(HvLineOverlay { y: Some(y) }),
                _ => OverlayKind::HvLine(o),
            },
        }
    }

    /// The series that the overlay draws on the given chart.
    pub fn compute(&self, chart: &Chart) -> (out: Vec<Series>)
        ensures
            out@.len() <= 1,
            self matches OverlayKind::HvLine(o) ==> (match o.y {
                Some(y) => out@.len() == 1 && out@[0].series_type == SeriesType::Line
                    && out@[0].data_xy@ == seq![(chart.x_axis.min, y), (chart.x_axis.max, y)],
                None => out@.len() == 0,
            }),
            self matches OverlayKind::Sma(o) ==> (match overlay_source(chart.series@) {
                Some(i) => out@.len() == 1 && out@[0].series_type == SeriesType::Line
                    && out@[0].data_xy@ == sma_of_series(chart.series@[i], o.effective_period()),
                None => out@.len() == 0,
            }),
    {
        match self {
            OverlayKind::Sma(o) => o.compute(chart),
            OverlayKind::HvLine(o) => o.compute(chart),
        }
    }
}

} // verus!
