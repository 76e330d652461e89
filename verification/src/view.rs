//! The visible logical window of a chart, and the pan, zoom and autoscale
//! operations that move it.

use vstd::prelude::*;

use crate::arith::{
    div_toward_zero, fits_i64, lemma_product_bound, lemma_trunc_div_cancel, lemma_trunc_div_monotone, mul_div, saturate, saturated,
    trunc_div,
};
use crate::chart::{margin, margin_of, opened, Chart};
use crate::downsample::Point;
use crate::extent::{lower, upper, Bounds};
use crate::geometry::clamp_spec;
use crate::series::{Candle, Series};
use crate::scale::PIXEL_UNIT;
use crate::types::Insets;

verus! {

/// Thousandths of the y span that a fit adds on each side.
pub const FIT_MARGIN_PERMILLE: u32 = 20;

/// Smallest zoom factor of one event, in thousandths.
pub const ZOOM_MIN_PERMILLE: i64 = 100;

/// Largest zoom factor of one event, in thousandths.
pub const ZOOM_MAX_PERMILLE: i64 = 10_000;

/// The visible window, in grid units.
#[derive(Clone, Copy, Debug, PartialEq, Eq, Structural)]
pub struct ViewState {
    pub x_min: i64,
    pub x_max: i64,
    pub y_min: i64,
    pub y_max: i64,
}

/// The window that a draw of the given size (in whole pixels) leaves
/// between the insets, at least one pixel wide and high, in millionths of a
/// pixel: `(left, top, width, height)`.
pub open spec fn plot_area(width: i32, height: i32, insets: Insets) -> (int, int, int, int) {
    let w = width - insets.right - insets.left;
    let h = height - insets.bottom - insets.top;
    (
        insets.left * PIXEL_UNIT,
        insets.top * PIXEL_UNIT,
        if w < 1 {
            PIXEL_UNIT as int
        } else {
            w * PIXEL_UNIT
        },
        if h < 1 {
            PIXEL_UNIT as int
        } else {
            h * PIXEL_UNIT
        },
    )
}

/// Whether all four ends are 64-bit values.
pub open spec fn representable(x_min: int, x_max: int, y_min: int, y_max: int) -> bool {
    &&& i64::MIN <= x_min <= i64::MAX
    &&& i64::MIN <= x_max <= i64::MAX
    &&& i64::MIN <= y_min <= i64::MAX
    &&& i64::MIN <= y_max <= i64::MAX
}

/// A span scaled by `f` thousandths, at least one grid unit.
pub open spec fn zoomed_span(span: int, f: int) -> int {
    let scaled = trunc_div(span * f, 1000);
    if scaled < 1 {
        1
    } else {
        scaled
    }
}

/// What is seen of the y values inside an x window.
#[derive(Clone, Copy, Debug, PartialEq, Eq, Structural)]
pub struct Visible {
    pub y_lo: Option<i64>,
    pub y_hi: Option<i64>,
    /// Whether any point or candle fell into the window.
    pub any: bool,
}

impl Visible {
    /// Nothing seen yet.
    pub open spec fn empty() -> Visible {
        Visible { y_lo: None, y_hi: None, any: false }
    }

    /// After one more XY point, which counts only inside the window.
    pub open spec fn with_point(self, p: Point, x_min: i64, x_max: i64) -> Visible {
        if x_min <= p.0 <= x_max {
            Visible { y_lo: lower(self.y_lo, p.1), y_hi: upper(self.y_hi, p.1), any: true }
        } else {
            self
        }
    }

    /// After one more candle, which counts only inside the window.
    pub open spec fn with_candle(self, c: Candle, x_min: i64, x_max: i64) -> Visible {
        if x_min <= c.t <= x_max {
            Visible { y_lo: lower(self.y_lo, c.l), y_hi: upper(self.y_hi, c.h), any: true }
        } else {
            self
        }
    }

    /// After a baseline, which widens the extremes wherever it lies but is
    /// itself no visible data.
    pub open spec fn with_baseline(self, b: Option<i64>) -> Visible {
        match b {
            Some(v) => Visible { y_lo: lower(self.y_lo, v), y_hi: upper(self.y_hi, v), any: self.any },
            None => self,
        }
    }

    /// After the first `k` of the given points.
    pub open spec fn with_points(self, pts: Seq<Point>, k: int, x_min: i64, x_max: i64) -> Visible
        decreases k,
    {
        if k <= 0 {
            self
        } else {
            self.with_points(pts, k - 1, x_min, x_max).with_point(pts[k - 1], x_min, x_max)
        }
    }

    /// After the first `k` of the given candles.
    pub open spec fn with_candles(self, cs: Seq<Candle>, k: int, x_min: i64, x_max: i64) -> Visible
        decreases k,
    {
        if k <= 0 {
            self
        } else {
            self.with_candles(cs, k - 1, x_min, x_max).with_candle(cs[k - 1], x_min, x_max)
        }
    }

    /// After one series.
    pub open spec fn with_series(self, s: Series, x_min: i64, x_max: i64) -> Visible {
        if s.series_type.is_xy() {
            self.with_points(s.data_xy@, s.data_xy@.len() as int, x_min, x_max).with_baseline(
                s.baseline,
            )
        } else {
            self.with_candles(s.data_ohlc@, s.data_ohlc@.len() as int, x_min, x_max)
        }
    }

    /// After the first `k` series of a chart.
    pub open spec fn of_series(series: Seq<Series>, k: int, x_min: i64, x_max: i64) -> Visible
        decreases k,
    {
        if k <= 0 {
            Visible::empty()
        } else {
            Visible::of_series(series, k - 1, x_min, x_max).with_series(series[k - 1], x_min, x_max)
        }
    }

    /// Once anything was seen, both extremes are known.
    pub open spec fn settled(self) -> bool {
        self.any ==> self.y_lo is Some && self.y_hi is Some
    }

    /// The range to report: the extremes, if anything was seen.
    pub open spec fn range(self) -> Option<(i64, i64)> {
        if self.any && self.y_lo is Some && self.y_hi is Some {
            Some((self.y_lo->0, self.y_hi->0))
        } else {
            None
        }
    }
}

fn see(v: Visible, lo: i64, hi: i64, counts: bool) -> (r: Visible)
    ensures
        r == (Visible { y_lo: lower(v.y_lo, lo), y_hi: upper(v.y_hi, hi), any: v.any || counts }),
{
    let y_lo = match v.y_lo {
        Some(m) => if lo < m {
            lo
        } else {
            m
        },
        None => lo,
    };
    let y_hi = match v.y_hi {
        Some(m) => if hi > m {
            hi
        } else {
            m
        },
        None => hi,
    };
    Visible { y_lo: Some(y_lo), y_hi: Some(y_hi), any: v.any || counts }
}

fn see_series(v: Visible, s: &Series, x_min: i64, x_max: i64) -> (r: Visible)
    requires
        v.settled(),
    ensures
        r == v.with_series(*s, x_min, x_max),
        r.settled(),
{
    let mut acc = v;
    if s.series_type.uses_xy() {
        let mut k: usize = 0;
        while k < s.data_xy.len()
            invariant
                k <= s.data_xy@.len(),
                acc == v.with_points(s.data_xy@, k as int, x_min, x_max),
                acc.settled(),
            decreases s.data_xy@.len() - k,
        {
            let p = s.data_xy[k];
            if p.0 >= x_min && p.0 <= x_max {
                acc = see(acc, p.1, p.1, true);
            }
            k += 1;
        }
        match s.baseline {
            Some(b) => see(acc, b, b, false),
            None => acc,
        }
    } else {
        let mut k: usize = 0;
        while k < s.data_ohlc.len()
            invariant
                k <= s.data_ohlc@.len(),
                acc == v.with_candles(s.data_ohlc@, k as int, x_min, x_max),
                acc.settled(),
            decreases s.data_ohlc@.len() - k,
        {
            let c = s.data_ohlc[k];
            if c.t >= x_min && c.t <= x_max {
                acc = see(acc, c.l, c.h, true);
            }
            k += 1;
        }
        acc
    }
}

/// The lowest and highest y among the data whose x lies in `[x_min, x_max]`:
/// points of XY series, lows and highs of candles. Baselines of XY series
/// widen the range but do not count as data. `None` where no point or
/// candle lies in the window.
pub fn visible_y_range(chart: &Chart, x_min: i64, x_max: i64) -> (r: Option<(i64, i64)>)
    ensures
        r == Visible::of_series(chart.series@, chart.series@.len() as int, x_min, x_max).range(),
        r is Some <==> Visible::of_series(
            chart.series@,
            chart.series@.len() as int,
            x_min,
            x_max,
        ).any,
{
    let mut acc = Visible { y_lo: None, y_hi: None, any: false };
    let mut i: usize = 0;
    while i < chart.series.len()
        invariant
            i <= chart.series@.len(),
            acc == Visible::of_series(chart.series@, i as int, x_min, x_max),
            acc.settled(),
        decreases chart.series@.len() - i,
    {
        acc = see_series(acc, &chart.series[i], x_min, x_max);
        i += 1;
    }
    if acc.any {
        match (acc.y_lo, acc.y_hi) {
            (Some(lo), Some(hi)) => Some((lo, hi)),
            _ => None,
        }
    } else {
        None
    }
}

impl ViewState {
    /// The window of one logical unit on each axis, from zero.
    pub open spec fn unit(ux: int, uy: int) -> ViewState {
        ViewState { x_min: 0, x_max: ux as i64, y_min: 0, y_max: uy as i64 }
    }

    /// The window that shows everything within the given extremes, on axes
    /// whose logical units are `ux` and `uy` grid units: the unit window
    /// where an extreme is unknown; else the x range as it is and the y
    /// range with the fit margin on each side, a collapsed range opened by
    /// one logical unit first.
    pub open spec fn fitting(b: Bounds, ux: int, uy: int) -> ViewState {
        if !b.complete() {
            ViewState::unit(ux, uy)
        } else {
            let y_top = opened(b.y_lo->0, b.y_hi->0, uy);
            let m = margin_of(y_top - b.y_lo->0, FIT_MARGIN_PERMILLE as int);
            ViewState {
                x_min: b.x_lo->0,
                x_max: saturated(opened(b.x_lo->0, b.x_hi->0, ux)),
                y_min: saturated(b.y_lo->0 - m),
                y_max: saturated(y_top + m),
            }
        }
    }

    /// The window that shows all the data of a chart; the logical units are
    /// those of the chart's axes.
    pub fn from_chart(chart: &Chart) -> (v: ViewState)
        ensures
            v == ViewState::fitting(chart.bounds(), chart.x_axis.unit(), chart.y_axis.unit()),
    {
        let b = Bounds::scan(&chart.series);
        let ux = chart.x_axis.logical_unit();
        let uy = chart.y_axis.logical_unit();
        match (b.x_lo, b.x_hi, b.y_lo, b.y_hi) {
            (Some(x_lo), Some(x_hi), Some(y_lo), Some(y_hi)) => {
                let x_top: i128 = if x_hi == x_lo {
                    x_lo as i128 + ux as i128
                } else {
                    x_hi as i128
                };
                let y_top: i128 = if y_hi == y_lo {
                    y_lo as i128 + uy as i128
                } else {
                    y_hi as i128
                };
                let m = margin(y_top - y_lo as i128, FIT_MARGIN_PERMILLE);
                ViewState {
                    x_min: x_lo,
                    x_max: saturate(x_top),
                    y_min: saturate(y_lo as i128 - m),
                    y_max: saturate(y_top + m),
                }
            },
            _ => ViewState { x_min: 0, x_max: ux, y_min: 0, y_max: uy },
        }
    }

    /// Sets the ranges of both axes of a chart to this window.
    pub fn apply_to_chart(&self, chart: &mut Chart)
        ensures
            final(chart).series == old(chart).series,
            final(chart).overlays == old(chart).overlays,
            final(chart).x_axis.label == old(chart).x_axis.label,
            final(chart).x_axis.kind == old(chart).x_axis.kind,
            final(chart).x_axis.resolution == old(chart).x_axis.resolution,
            final(chart).y_axis.resolution == old(chart).y_axis.resolution,
            final(chart).y_axis.label == old(chart).y_axis.label,
            final(chart).y_axis.kind == old(chart).y_axis.kind,
            final(chart).x_axis.min == self.x_min,
            final(chart).x_axis.max == self.x_max,
            final(chart).y_axis.min == self.y_min,
            final(chart).y_axis.max == self.y_max,
    {
        chart.x_axis.min = self.x_min;
        chart.x_axis.max = self.x_max;
        chart.y_axis.min = self.y_min;
        chart.y_axis.max = self.y_max;
    }

    /// The shift on x, in grid units, of a drag by `dx` millionths of a
    /// pixel over a plot `plot_w` millionths of a pixel wide: the share
    /// `dx / plot_w` of the visible span, against the drag.
    pub open spec fn pan_shift_x(self, dx: i64, plot_w: int) -> int {
        trunc_div(-dx * (self.x_max - self.x_min), plot_w)
    }

    /// The shift on y, in grid units, of a drag by `dy` millionths of a
    /// pixel over a plot `plot_h` millionths of a pixel high: the share
    /// `dy / plot_h` of the visible span, with the drag (screen y grows
    /// downward, values grow upward).
    pub open spec fn pan_shift_y(self, dy: i64, plot_h: int) -> int {
        trunc_div(dy * (self.y_max - self.y_min), plot_h)
    }

    /// Moves the window by a drag of `(dx, dy)`, in millionths of a pixel,
    /// over a draw of the given size in whole pixels. A move that would
    /// leave the 64-bit range does nothing.
    pub fn pan_by_pixels(&mut self, dx: i64, dy: i64, width: i32, height: i32, insets: &Insets)
        ensures
            ({
                let old_v = *old(self);
                let area = plot_area(width, height, *insets);
                let wx = old_v.pan_shift_x(dx, area.2);
                let wy = old_v.pan_shift_y(dy, area.3);
                if representable(
                    old_v.x_min + wx,
                    old_v.x_max + wx,
                    old_v.y_min + wy,
                    old_v.y_max + wy,
                ) {
                    &&& final(self).x_min == old_v.x_min + wx
                    &&& final(self).x_max == old_v.x_max + wx
                    &&& final(self).y_min == old_v.y_min + wy
                    &&& final(self).y_max == old_v.y_max + wy
                } else {
                    *final(self) == old_v
                }
            }),
    {
        let w: i128 = width as i128 - insets.right as i128 - insets.left as i128;
        let h: i128 = height as i128 - insets.bottom as i128 - insets.top as i128;
        let plot_w: i128 = if w < 1 {
            1_000_000
        } else {
            w * 1_000_000
        };
        let plot_h: i128 = if h < 1 {
            1_000_000
        } else {
            h * 1_000_000
        };
        let x_span: i128 = self.x_max as i128 - self.x_min as i128;
        let y_span: i128 = self.y_max as i128 - self.y_min as i128;
        let ndx: i128 = -(dx as i128);
        assert(-0x7FFF_FFFF_FFFF_FFFF_8000_0000_0000_0000 <= ndx * x_span
            <= 0x7FFF_FFFF_FFFF_FFFF_8000_0000_0000_0000) by (nonlinear_arith)
            requires
                -0x8000_0000_0000_0000 <= ndx <= 0x8000_0000_0000_0000,
                -0xFFFF_FFFF_FFFF_FFFF <= x_span <= 0xFFFF_FFFF_FFFF_FFFF,
        ;
        assert(-0x7FFF_FFFF_FFFF_FFFF_8000_0000_0000_0000 <= dy * y_span
            <= 0x7FFF_FFFF_FFFF_FFFF_8000_0000_0000_0000) by (nonlinear_arith)
            requires
                -0x8000_0000_0000_0000 <= dy <= 0x8000_0000_0000_0000,
                -0xFFFF_FFFF_FFFF_FFFF <= y_span <= 0xFFFF_FFFF_FFFF_FFFF,
        ;
        let wx = div_toward_zero(ndx * x_span, plot_w);
        let wy = div_toward_zero((dy as i128) * y_span, plot_h);
        let x0 = self.x_min as i128 + wx;
        let x1 = self.x_max as i128 + wx;
        let y0 = self.y_min as i128 + wy;
        let y1 = self.y_max as i128 + wy;
        if fits_i64(x0) && fits_i64(x1) && fits_i64(y0) && fits_i64(y1) {
            self.x_min = x0 as i64;
            self.x_max = x1 as i64;
            self.y_min = y0 as i64;
            self.y_max = y1 as i64;
        }
    }

    /// The factor of one zoom event, in thousandths: `1000 - scroll`, kept
    /// within `[ZOOM_MIN_PERMILLE, ZOOM_MAX_PERMILLE]`.
    pub open spec fn zoom_factor(scroll_permille: i64) -> int {
        clamp_spec(1000 - scroll_permille, ZOOM_MIN_PERMILLE as int, ZOOM_MAX_PERMILLE as int)
    }

    /// The logical point under the cursor, the cursor first brought into
    /// the plot area: the x share of the visible span from the left, the y
    /// share from the top.
    pub open spec fn anchor_at(
        self,
        cursor_x: i64,
        cursor_y: i64,
        width: i32,
        height: i32,
        insets: Insets,
    ) -> (int, int) {
        let area = plot_area(width, height, insets);
        let cx = clamp_spec(cursor_x as int, area.0, (width - insets.right) * PIXEL_UNIT);
        let cy = clamp_spec(cursor_y as int, area.1, (height - insets.bottom) * PIXEL_UNIT);
        (
            self.x_min + trunc_div((self.x_max - self.x_min) * (cx - area.0), area.2),
            self.y_max - trunc_div((self.y_max - self.y_min) * (cy - area.1), area.3),
        )
    }

    /// The window after both spans were scaled by `f` thousandths about the
    /// anchor `(wx, wy)`: the distance from the anchor to the left and to
    /// the top end scales by `f`, and so do the spans, which stay at least
    /// one grid unit wide.
    /// The result is `(x_min, x_max, y_min, y_max)`.
    pub open spec fn zoomed_about(self, wx: int, wy: int, f: int) -> (int, int, int, int) {
        let nx = zoomed_span(self.x_max - self.x_min, f);
        let ny = zoomed_span(self.y_max - self.y_min, f);
        let x0 = wx - trunc_div((wx - self.x_min) * f, 1000);
        let y1 = wy + trunc_div((self.y_max - wy) * f, 1000);
        (x0, x0 + nx, y1 - ny, y1)
    }

    fn anchor(&self, cursor_x: i64, cursor_y: i64, width: i32, height: i32, insets: &Insets) -> (at: (
        i128,
        i128,
    ))
        ensures
            (at.0 as int, at.1 as int) == self.anchor_at(cursor_x, cursor_y, width, height, *insets),
            -0x200_0000_0000_0000_0000_0000_0000 <= at.0 - self.x_min
                <= 0x200_0000_0000_0000_0000_0000_0000,
            -0x200_0000_0000_0000_0000_0000_0000 <= self.y_max - at.1
                <= 0x200_0000_0000_0000_0000_0000_0000,
    {
        let l: i128 = insets.left as i128 * 1_000_000;
        let t: i128 = insets.top as i128 * 1_000_000;
        let rpx: i128 = (width as i128 - insets.right as i128) * 1_000_000;
        let bpx: i128 = (height as i128 - insets.bottom as i128) * 1_000_000;
        let plot_w: i128 = if rpx - l < 1_000_000 {
            1_000_000
        } else {
            rpx - l
        };
        let plot_h: i128 = if bpx - t < 1_000_000 {
            1_000_000
        } else {
            bpx - t
        };
        let cx: i128 = if (cursor_x as i128) < l {
            l
        } else if cursor_x as i128 > rpx {
            rpx
        } else {
            cursor_x as i128
        };
        let cy: i128 = if (cursor_y as i128) < t {
            t
        } else if cursor_y as i128 > bpx {
            bpx
        } else {
            cursor_y as i128
        };
        let x_span: i128 = self.x_max as i128 - self.x_min as i128;
        let y_span: i128 = self.y_max as i128 - self.y_min as i128;
        let ax = share(x_span, cx - l, plot_w);
        let ay = share(y_span, cy - t, plot_h);
        (self.x_min as i128 + ax, self.y_max as i128 - ay)
    }

    fn zoom_about(&self, wx: i128, wy: i128, f: i128) -> (z: (i128, i128, i128, i128))
        requires
            -0x200_0000_0000_0000_0000_0000_0000 <= wx - self.x_min
                <= 0x200_0000_0000_0000_0000_0000_0000,
            -0x200_0000_0000_0000_0000_0000_0000 <= self.y_max - wy
                <= 0x200_0000_0000_0000_0000_0000_0000,
            ZOOM_MIN_PERMILLE <= f <= ZOOM_MAX_PERMILLE,
        ensures
            (z.0 as int, z.1 as int, z.2 as int, z.3 as int) == self.zoomed_about(
                wx as int,
                wy as int,
                f as int,
            ),
    {
        let x_span: i128 = self.x_max as i128 - self.x_min as i128;
        let y_span: i128 = self.y_max as i128 - self.y_min as i128;
        let sx = mul_div(x_span, f, 1000);
        let sy = mul_div(y_span, f, 1000);
        let nx: i128 = if sx < 1 {
            1
        } else {
            sx
        };
        let ny: i128 = if sy < 1 {
            1
        } else {
            sy
        };
        let x0: i128 = wx - mul_div(wx - self.x_min as i128, f, 1000);
        let y1: i128 = wy + mul_div(self.y_max as i128 - wy, f, 1000);
        (x0, x0 + nx, y1 - ny, y1)
    }

    /// Zooms both axes about the logical point under the cursor, whose
    /// position is in millionths of a pixel, by the factor that the scroll
    /// amount gives. Neither span shrinks below one
    /// grid unit, so an open window stays open. A zoom whose result would
    /// leave the 64-bit range does nothing.
    pub fn zoom_at_pixel(
        &mut self,
        scroll_permille: i64,
        cursor_x: i64,
        cursor_y: i64,
        width: i32,
        height: i32,
        insets: &Insets,
    )
        ensures
            old(self).x_min < old(self).x_max ==> final(self).x_min < final(self).x_max,
            old(self).y_min < old(self).y_max ==> final(self).y_min < final(self).y_max,
            ({
                let old_v = *old(self);
                let at = old_v.anchor_at(cursor_x, cursor_y, width, height, *insets);
                let z = old_v.zoomed_about(at.0, at.1, ViewState::zoom_factor(scroll_permille));
                if representable(z.0, z.1, z.2, z.3) {
                    &&& final(self).x_min == z.0
                    &&& final(self).x_max == z.1
                    &&& final(self).y_min == z.2
                    &&& final(self).y_max == z.3
                } else {
                    *final(self) == old_v
                }
            }),
    {
        let (wx, wy) = self.anchor(cursor_x, cursor_y, width, height, insets);
        let raw: i128 = 1000 - scroll_permille as i128;
        let f: i128 = if raw < ZOOM_MIN_PERMILLE as i128 {
            ZOOM_MIN_PERMILLE as i128
        } else if raw > ZOOM_MAX_PERMILLE as i128 {
            ZOOM_MAX_PERMILLE as i128
        } else {
            raw
        };
        let (x0, x1, y0, y1) = self.zoom_about(wx, wy, f);
        if fits_i64(x0) && fits_i64(x1) && fits_i64(y0) && fits_i64(y1) {
            self.x_min = x0 as i64;
            self.x_max = x1 as i64;
            self.y_min = y0 as i64;
            self.y_max = y1 as i64;
        }
    }

    /// Fits the y range to the data whose x is visible, with the fit margin
    /// on each side, and says whether there was any such data; without any
    /// the window stays as it is.
    pub fn autoscale_y_visible(&mut self, chart: &Chart) -> (changed: bool)
        ensures
            final(self).x_min == old(self).x_min,
            final(self).x_max == old(self).x_max,
            ({
                let seen = Visible::of_series(
                    chart.series@,
                    chart.series@.len() as int,
                    old(self).x_min,
                    old(self).x_max,
                ).range();
                match seen {
                    Some((lo, hi)) => {
                        let m = margin_of(hi - lo, FIT_MARGIN_PERMILLE as int);
                        &&& changed
                        &&& final(self).y_min == saturated(lo - m)
                        &&& final(self).y_max == saturated(hi + m)
                    },
                    None => !changed && *final(self) == *old(self),
                }
            }),
    {
        match visible_y_range(chart, self.x_min, self.x_max) {
            Some((lo, hi)) => {
                let m = margin(hi as i128 - lo as i128, FIT_MARGIN_PERMILLE);
                self.y_min = saturate(lo as i128 - m);
                self.y_max = saturate(hi as i128 + m);
                true
            },
            None => false,
        }
    }
}

fn share(span: i128, d: i128, whole: i128) -> (q: i128)
    requires
        -0x1_0000_0000_0000_0000 <= span <= 0x1_0000_0000_0000_0000,
        -0x40_0000_0000_0000 <= d <= 0x40_0000_0000_0000,
        whole >= 1_000_000,
    ensures
        q == trunc_div(span * d, whole as int),
        -0x10_0000_0000_0000_0000_0000_0000 <= q <= 0x10_0000_0000_0000_0000_0000_0000,
{
    proof {
        lemma_product_bound(span as int, d as int, 0x1_0000_0000_0000_0000, 0x40_0000_0000_0000);
    }
    let n: i128 = span * d;
    let q = div_toward_zero(n, whole);
    assert(-0x10_0000_0000_0000_0000_0000_0000 <= q <= 0x10_0000_0000_0000_0000_0000_0000)
        by (nonlinear_arith)
        requires
            whole >= 1_000_000,
            -0x40_0000_0000_0000_0000_0000_0000_0000 <= n <= 0x40_0000_0000_0000_0000_0000_0000_0000,
            n >= 0 ==> 0 <= q && q * whole <= n,
            n <= 0 ==> q <= 0 && q * whole >= n,
    ;
    q
}

/// A zoom by a positive factor keeps the anchor inside the window: a point
/// that was visible before the zoom is visible after it.
pub proof fn lemma_zoom_keeps_anchor_visible(v: ViewState, wx: int, wy: int, f: int)
    requires
        f > 0,
        v.x_min <= wx <= v.x_max,
        v.y_min <= wy <= v.y_max,
    ensures
        v.zoomed_about(wx, wy, f).0 <= wx <= v.zoomed_about(wx, wy, f).1,
        v.zoomed_about(wx, wy, f).2 <= wy <= v.zoomed_about(wx, wy, f).3,
{
    let xs = v.x_max - v.x_min;
    let ys = v.y_max - v.y_min;
    lemma_product_order(0, wx - v.x_min, f);
    lemma_product_order(wx - v.x_min, xs, f);
    lemma_trunc_div_monotone(0, (wx - v.x_min) * f, 1000);
    lemma_trunc_div_monotone((wx - v.x_min) * f, xs * f, 1000);
    lemma_product_order(0, v.y_max - wy, f);
    lemma_product_order(v.y_max - wy, ys, f);
    lemma_trunc_div_monotone(0, (v.y_max - wy) * f, 1000);
    lemma_trunc_div_monotone((v.y_max - wy) * f, ys * f, 1000);
}

/// A zoom never closes the window: whatever the window, the anchor and the
/// factor, the zoomed window is at least one grid unit wide and high.
pub proof fn lemma_zoom_keeps_window_open(v: ViewState, wx: int, wy: int, f: int)
    ensures
        v.zoomed_about(wx, wy, f).0 < v.zoomed_about(wx, wy, f).1,
        v.zoomed_about(wx, wy, f).2 < v.zoomed_about(wx, wy, f).3,
{
}

/// A zoom scales an open span by the factor, up to rounding down: for a
/// factor between a tenth and ten, the new span is the old one times the
/// factor to within one grid unit, and at least one grid unit.
pub proof fn lemma_zoomed_span_bounds(span: int, f: int)
    requires
        span >= 1,
        ZOOM_MIN_PERMILLE <= f <= ZOOM_MAX_PERMILLE,
    ensures
        zoomed_span(span, f) >= 1,
        1000 * zoomed_span(span, f) <= span * f || zoomed_span(span, f) == 1,
        span * f < 1000 * zoomed_span(span, f) + 1000,
{
    let n = span * f;
    assert(n >= 0) by (nonlinear_arith)
        requires
            n == span * f,
            span >= 1,
            f >= 100,
    ;
    assert(1000 * (n / 1000) <= n < 1000 * (n / 1000) + 1000) by (nonlinear_arith)
        requires
            n >= 0,
    ;
}

/// A zoom by the factor one (no scroll) leaves an open window as it is.
pub proof fn lemma_zoom_by_one_is_identity(v: ViewState, wx: int, wy: int)
    requires
        v.x_min < v.x_max,
        v.y_min < v.y_max,
    ensures
        ViewState::zoom_factor(0) == 1000,
        v.zoomed_about(wx, wy, 1000) == (
            v.x_min as int,
            v.x_max as int,
            v.y_min as int,
            v.y_max as int,
        ),
{
    lemma_trunc_div_cancel(v.x_max - v.x_min, 1000);
    lemma_trunc_div_cancel(v.y_max - v.y_min, 1000);
    lemma_trunc_div_cancel(wx - v.x_min, 1000);
    lemma_trunc_div_cancel(v.y_max - wy, 1000);
}

/// A pan keeps both spans: the two ends of an axis move by the same amount.
pub proof fn lemma_pan_keeps_spans(v: ViewState, dx: i64, dy: i64, plot_w: int, plot_h: int)
    ensures
        (v.x_max + v.pan_shift_x(dx, plot_w)) - (v.x_min + v.pan_shift_x(dx, plot_w)) == v.x_max
            - v.x_min,
        (v.y_max + v.pan_shift_y(dy, plot_h)) - (v.y_min + v.pan_shift_y(dy, plot_h)) == v.y_max
            - v.y_min,
{
}

/// The window fitted to known extremes shows all of them, and is not
/// collapsed on x unless the data sits at the border of the 64-bit range.
pub proof fn lemma_fit_covers(b: Bounds, ux: int, uy: int)
    requires
        b.complete(),
        b.y_lo->0 <= b.y_hi->0,
        b.x_lo->0 <= b.x_hi->0,
        ux >= 1,
        uy >= 1,
    ensures
        ViewState::fitting(b, ux, uy).x_min <= b.x_lo->0,
        ViewState::fitting(b, ux, uy).x_max >= b.x_hi->0,
        ViewState::fitting(b, ux, uy).y_min <= b.y_lo->0,
        ViewState::fitting(b, ux, uy).y_max >= b.y_hi->0,
        ViewState::fitting(b, ux, uy).x_min < ViewState::fitting(b, ux, uy).x_max || b.x_lo->0
            == i64::MAX,
{
    let y_top = opened(b.y_lo->0, b.y_hi->0, uy);
    let span = y_top - b.y_lo->0;
    assert(span * 20 >= 0);
    assert((span * 20) / 1000 >= 0) by (nonlinear_arith)
        requires
            span * 20 >= 0,
    ;
}

proof fn lemma_product_order(a: int, b: int, f: int)
    requires
        a <= b,
        f > 0,
    ensures
        a * f <= b * f,
        0 * f == 0,
{
    assert(a * f <= b * f) by (nonlinear_arith)
        requires
            a <= b,
            f > 0,
    ;
}

} // verus!
