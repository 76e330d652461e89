//! Frame layout: the plot rectangle of a draw, the scales that map its
//! axes to pixels, the pixel positions of the data, and what the axes show.

use vstd::prelude::*;

use crate::arith::{div_toward_zero, lemma_trunc_div_monotone, trunc_div};
use crate::axis::{Axis, ScaleKind};
use crate::downsample::Point;
use crate::geometry::{clamp_spec, RectI32};
use crate::labels::{
    detect_time_like, detect_time_like_spec, format_log_tick, format_log_tick_spec, format_tick,
    format_tick_spec, format_time_tick, format_time_tick_spec, grid_of,
};
use crate::arith::{lemma_product_bound, saturate, saturated};
use crate::scale::{
    logical, pixel, TimeScale, ValueScale, PIXEL_UNIT, RESOLUTION_MAX, SPACING_CEILING,
    SPACING_FLOOR,
};
use crate::series::Candle;
use crate::ticks::{
    lemma_lerp_inside, lerp, lerp_at, log_ticks, log_ticks_spec, minor_ticks_linear,
    minor_ticks_linear_spec, minor_ticks_log, minor_ticks_log_spec, nice_ticks, nice_ticks_spec,
};
use crate::types::Insets;

verus! {

/// Number of ticks wanted on the x axis.
pub const X_TICK_TARGET: usize = 8;

/// Number of ticks wanted on the y axis.
pub const Y_TICK_TARGET: usize = 6;

/// Number of minor ticks between two major ticks of a linear axis.
pub const MINORS_PER_GAP: usize = 4;

/// Number of vertical grid lines, the two edges included.
pub const GRID_COLUMNS: usize = 10;

/// Number of horizontal grid lines, the two edges included.
pub const GRID_ROWS: usize = 6;

/// The value of type `i32` nearest to `v`.
pub open spec fn whole_pixel(v: int) -> i32 {
    if v < i32::MIN {
        i32::MIN
    } else if v > i32::MAX {
        i32::MAX
    } else {
        v as i32
    }
}

/// The rectangle, in whole pixels, that a draw of the given size leaves
/// between the insets.
pub open spec fn plot_rect_spec(width: i32, height: i32, insets: Insets) -> RectI32 {
    RectI32 {
        left: whole_pixel(insets.left as int),
        top: whole_pixel(insets.top as int),
        right: whole_pixel(width - insets.right),
        bottom: whole_pixel(height - insets.bottom),
    }
}

fn pixel_of(v: i64) -> (r: i32)
    ensures
        r == whole_pixel(v as int),
{
    if v < i32::MIN as i64 {
        i32::MIN
    } else if v > i32::MAX as i64 {
        i32::MAX
    } else {
        v as i32
    }
}

/// The rectangle that a draw of the given size leaves between the insets,
/// each edge kept within 32 bits.
pub fn plot_rect(width: i32, height: i32, insets: &Insets) -> (r: RectI32)
    ensures
        r == plot_rect_spec(width, height, *insets),
{
    RectI32 {
        left: pixel_of(insets.left as i64),
        top: pixel_of(insets.top as i64),
        right: pixel_of(width as i64 - insets.right as i64),
        bottom: pixel_of(height as i64 - insets.bottom as i64),
    }
}

/// The bar spacing at which the range `[x_min, x_max]`, in grid units of
/// which `resolution` make a logical unit, fills the width of the plot: in
/// millionths of a pixel per logical unit. A collapsed range counts as one
/// grid unit.
pub open spec fn frame_spacing(x_min: i64, x_max: i64, plot: RectI32, resolution: int) -> int {
    let span = if x_max - x_min < 1 {
        1
    } else {
        x_max - x_min
    };
    trunc_div((plot.right - plot.left) * PIXEL_UNIT * resolution, span)
}

/// The time scale of a frame: the axis minimum at the left edge of the
/// plot, and the spacing at which the axis range fills its width, kept
/// within the floor and ceiling of a time scale. The resolution is that of
/// the axis.
pub fn time_scale_for(axis: &Axis, plot: &RectI32) -> (s: TimeScale)
    ensures
        s.wf(),
        s.left_px == pixel(plot.left * PIXEL_UNIT),
        s.start_logical == logical(axis.min as int),
        s.resolution == clamp_spec(
            axis.resolution as int,
            1,
            RESOLUTION_MAX as int,
        ),
        s.bar_spacing == clamp_spec(
            frame_spacing(axis.min, axis.max, *plot, s.resolution as int),
            SPACING_FLOOR as int,
            SPACING_CEILING as int,
        ),
{
    let resolution = axis.resolution;
    let res: i128 = if resolution < 1 {
        1
    } else if resolution > RESOLUTION_MAX {
        RESOLUTION_MAX as i128
    } else {
        resolution as i128
    };
    let raw: i128 = axis.max as i128 - axis.min as i128;
    let span: i128 = if raw < 1 {
        1
    } else {
        raw
    };
    let width: i128 = (plot.right as i128 - plot.left as i128) * 1_000_000;
    proof {
        lemma_product_bound(width as int, res as int, 4_294_967_296_000_000int, 0x10_0000);
    }
    let spacing = div_toward_zero(width * res, span);
    TimeScale::new(plot.left as i64 * 1_000_000, axis.min, saturate(spacing), res as i64)
}

/// The linear value scale of a frame: the axis range between the bottom
/// and the top edge of the plot, on the grid of the axis, a collapsed range
/// opened by one logical unit of the axis.
pub fn value_scale_for(axis: &Axis, plot: &RectI32) -> (s: ValueScale)
    ensures
        s.wf(),
        s.top_px == pixel(plot.top * PIXEL_UNIT),
        s.bottom_px == pixel(plot.bottom * PIXEL_UNIT),
        s.vmin == axis.min,
        s.resolution == axis.unit(),
        s.vmax == (if axis.max == axis.min {
            saturated(axis.min + axis.unit())
        } else {
            axis.max
        }),
{
    ValueScale::new_linear(
        plot.top as i64 * 1_000_000,
        plot.bottom as i64 * 1_000_000,
        axis.min,
        axis.max,
        axis.resolution,
    )
}

/// The pixel positions, in millionths of a pixel, of points under the two
/// scales of a frame.
pub fn line_pixels(points: &[Point], ts: &TimeScale, vs: &ValueScale) -> (out: Vec<(i64, i64)>)
    requires
        ts.wf(),
        vs.wf(),
    ensures
        out@.len() == points@.len(),
        forall|i: int|
            0 <= i < points@.len() ==> out@[i] == (
                pixel(ts.px_of(points@[i].0 as int)),
                pixel(vs.px_of(points@[i].1 as int)),
            ),
{
    let mut out: Vec<(i64, i64)> = Vec::new();
    let mut i: usize = 0;
    while i < points.len()
        invariant
            ts.wf(),
            vs.wf(),
            i <= points@.len(),
            out@.len() == i,
            forall|j: int|
                0 <= j < i ==> out@[j] == (
                    pixel(ts.px_of(points@[j].0 as int)),
                    pixel(vs.px_of(points@[j].1 as int)),
                ),
        decreases points@.len() - i,
    {
        let p = points[i];
        out.push((ts.to_px(p.0), vs.to_px(p.1)));
        i += 1;
    }
    out
}

/// Where a candle is drawn: the column of its time, the rows of its four
/// prices, and whether it closed at or above its open.
#[derive(Clone, Copy, Debug, PartialEq, Eq, Structural)]
pub struct CandlePixels {
    pub x: i64,
    pub open: i64,
    pub high: i64,
    pub low: i64,
    pub close: i64,
    pub up: bool,
}

/// Where a candle is drawn under the two scales of a frame.
pub open spec fn candle_pixels_spec(c: Candle, ts: TimeScale, vs: ValueScale) -> CandlePixels {
    CandlePixels {
        x: pixel(ts.px_of(c.t as int)),
        open: pixel(vs.px_of(c.o as int)),
        high: pixel(vs.px_of(c.h as int)),
        low: pixel(vs.px_of(c.l as int)),
        close: pixel(vs.px_of(c.c as int)),
        up: c.c >= c.o,
    }
}

/// The pixel positions of candles under the two scales of a frame.
pub fn candle_pixels(candles: &[Candle], ts: &TimeScale, vs: &ValueScale) -> (out: Vec<CandlePixels>)
    requires
        ts.wf(),
        vs.wf(),
    ensures
        out@.len() == candles@.len(),
        forall|i: int|
            0 <= i < candles@.len() ==> out@[i] == candle_pixels_spec(candles@[i], *ts, *vs),
{
    let mut out: Vec<CandlePixels> = Vec::new();
    let mut i: usize = 0;
    while i < candles.len()
        invariant
            ts.wf(),
            vs.wf(),
            i <= candles@.len(),
            out@.len() == i,
            forall|j: int| 0 <= j < i ==> out@[j] == candle_pixels_spec(candles@[j], *ts, *vs),
        decreases candles@.len() - i,
    {
        let c = candles[i];
        out.push(
            CandlePixels {
                x: ts.to_px(c.t),
                open: vs.to_px(c.o),
                high: vs.to_px(c.h),
                low: vs.to_px(c.l),
                close: vs.to_px(c.c),
                up: c.c >= c.o,
            },
        );
        i += 1;
    }
    out
}

/// On a scale whose bottom row is not above its top row, a valid candle is
/// drawn with its high at or above and its low at or below both open and
/// close: rows grow downward.
pub proof fn lemma_candle_pixels_ordered(c: Candle, ts: TimeScale, vs: ValueScale)
    requires
        c.valid(),
        vs.height() >= 0,
    ensures
        ({
            let p = candle_pixels_spec(c, ts, vs);
            p.high <= p.open && p.high <= p.close && p.low >= p.open && p.low >= p.close
        }),
{
    lemma_row_order(c.o as int, c.h as int, vs);
    lemma_row_order(c.c as int, c.h as int, vs);
    lemma_row_order(c.l as int, c.o as int, vs);
    lemma_row_order(c.l as int, c.c as int, vs);
}

proof fn lemma_row_order(lo: int, hi: int, vs: ValueScale)
    requires
        lo <= hi,
        vs.height() >= 0,
    ensures
        vs.px_of(hi) <= vs.px_of(lo),
        pixel(vs.px_of(hi)) <= pixel(vs.px_of(lo)),
{
    let h = vs.height();
    assert((lo - vs.vmin) * h <= (hi - vs.vmin) * h) by (nonlinear_arith)
        requires
            lo <= hi,
            h >= 0,
    ;
    lemma_trunc_div_monotone((lo - vs.vmin) * h, (hi - vs.vmin) * h, vs.span());
}

/// The pixel positions of values on the time scale of a frame.
pub fn x_pixels(values: &[i64], ts: &TimeScale) -> (out: Vec<i64>)
    requires
        ts.wf(),
    ensures
        out@.len() == values@.len(),
        forall|i: int| 0 <= i < values@.len() ==> out@[i] == pixel(ts.px_of(values@[i] as int)),
{
    let mut out: Vec<i64> = Vec::new();
    let mut i: usize = 0;
    while i < values.len()
        invariant
            ts.wf(),
            i <= values@.len(),
            out@.len() == i,
            forall|j: int| 0 <= j < i ==> out@[j] == pixel(ts.px_of(values@[j] as int)),
        decreases values@.len() - i,
    {
        out.push(ts.to_px(values[i]));
        i += 1;
    }
    out
}

/// The pixel positions of values on the value scale of a frame.
pub fn y_pixels(values: &[i64], vs: &ValueScale) -> (out: Vec<i64>)
    requires
        vs.wf(),
    ensures
        out@.len() == values@.len(),
        forall|i: int| 0 <= i < values@.len() ==> out@[i] == pixel(vs.px_of(values@[i] as int)),
{
    let mut out: Vec<i64> = Vec::new();
    let mut i: usize = 0;
    while i < values.len()
        invariant
            vs.wf(),
            i <= values@.len(),
            out@.len() == i,
            forall|j: int| 0 <= j < i ==> out@[j] == pixel(vs.px_of(values@[j] as int)),
        decreases values@.len() - i,
    {
        out.push(vs.to_px(values[i]));
        i += 1;
    }
    out
}

/// `count` evenly spaced pixel positions from `from` to `to`, both included.
pub open spec fn grid_lines_spec(from: i32, to: i32, count: int) -> Seq<i32> {
    Seq::new(count as nat, |i: int| lerp_at(from as i64, to as i64, count - 1, i) as i32)
}

/// The positions of grid lines between two edges of the plot, the edges
/// included.
pub fn grid_lines(from: i32, to: i32, count: usize) -> (out: Vec<i32>)
    requires
        count >= 2,
    ensures
        out@ == grid_lines_spec(from, to, count as int),
        out@[0] == from,
        out@[count - 1] == to,
{
    let mut out: Vec<i32> = Vec::new();
    let den: u128 = count as u128 - 1;
    let mut i: usize = 0;
    while i < count
        invariant
            count >= 2,
            den == count - 1,
            i <= count,
            out@.len() == i,
            forall|j: int|
                0 <= j < i ==> out@[j] == lerp_at(from as i64, to as i64, count - 1, j) as i32,
        decreases count - i,
    {
        proof {
            lemma_lerp_inside(from as i64, to as i64, count - 1, i as int);
        }
        let v = lerp(from as i64, to as i64, den, i as u128);
        out.push(v as i32);
        i += 1;
    }
    proof {
        lemma_lerp_inside(from as i64, to as i64, count - 1, 0);
        assert(out@ =~= grid_lines_spec(from, to, count as int));
    }
    out
}

/// A major tick: its value and the text beside it.
pub struct TickMark {
    pub value: i64,
    pub label: String,
}

/// The label of a tick on the x axis: a time where the axis bounds look
/// like epoch times, else the plain number.
pub open spec fn x_label_spec(v: i64, min: i64, max: i64, res: int) -> Seq<char> {
    if detect_time_like_spec(min as int, max as int, res) is Some {
        format_time_tick_spec(v, min, max, res)
    } else {
        format_tick_spec(v as int, min as int, max as int, res)
    }
}

/// The smallest value a logarithmic axis can start at: one grid unit.
pub open spec fn log_floor(min: i64) -> i64 {
    if min < 1 {
        1
    } else {
        min
    }
}

/// The values of the major ticks on the y axis: decade ticks on a
/// logarithmic axis, nice ticks on a linear one.
pub open spec fn y_tick_values_spec(kind: ScaleKind, min: i64, max: i64) -> Seq<i64> {
    if kind == ScaleKind::Log10 {
        log_ticks_spec(log_floor(min), max, Y_TICK_TARGET as int)
    } else {
        nice_ticks_spec(min, max, Y_TICK_TARGET as int)
    }
}

/// The label of a tick on the y axis.
pub open spec fn y_label_spec(kind: ScaleKind, v: i64, min: i64, max: i64, res: int) -> Seq<char> {
    if kind == ScaleKind::Log10 {
        format_log_tick_spec(v as int, res)
    } else {
        format_tick_spec(v as int, min as int, max as int, res)
    }
}

/// The major ticks of the x axis with their labels, which show logical
/// units of the axis.
pub fn x_tick_marks(axis: &Axis) -> (out: Vec<TickMark>)
    ensures
        out@.len() == nice_ticks_spec(axis.min, axis.max, X_TICK_TARGET as int).len(),
        forall|i: int|
            0 <= i < out@.len() ==> out@[i].value == nice_ticks_spec(
                axis.min,
                axis.max,
                X_TICK_TARGET as int,
            )[i] && out@[i].label@ == x_label_spec(
                out@[i].value,
                axis.min,
                axis.max,
                grid_of(axis.resolution),
            ),
{
    let values = nice_ticks(axis.min, axis.max, X_TICK_TARGET);
    let timed = detect_time_like(axis.min, axis.max, axis.resolution).is_some();
    let mut out: Vec<TickMark> = Vec::new();
    let mut i: usize = 0;
    while i < values.len()
        invariant
            i <= values@.len(),
            out@.len() == i,
            timed == (detect_time_like_spec(
                axis.min as int,
                axis.max as int,
                grid_of(axis.resolution),
            ) is Some),
            forall|j: int|
                0 <= j < i ==> (#[trigger] out@[j]).value == values@[j] && out@[j].label@
                    == x_label_spec(values@[j], axis.min, axis.max, grid_of(axis.resolution)),
        decreases values@.len() - i,
    {
        let v = values[i];
        let label = if timed {
            format_time_tick(v, axis.min, axis.max, axis.resolution)
        } else {
            format_tick(v, axis.min, axis.max, axis.resolution)
        };
        out.push(TickMark { value: v, label });
        i += 1;
    }
    out
}

/// The major ticks of the y axis with their labels, which show logical
/// units of the axis.
pub fn y_tick_marks(axis: &Axis) -> (out: Vec<TickMark>)
    ensures
        out@.len() == y_tick_values_spec(axis.kind, axis.min, axis.max).len(),
        forall|i: int|
            0 <= i < out@.len() ==> out@[i].value == y_tick_values_spec(
                axis.kind,
                axis.min,
                axis.max,
            )[i] && out@[i].label@ == y_label_spec(
                axis.kind,
                out@[i].value,
                axis.min,
                axis.max,
                grid_of(axis.resolution),
            ),
{
    let log = match axis.kind {
        ScaleKind::Log10 => true,
        ScaleKind::Linear => false,
    };
    let values = if log {
        let floor = if axis.min < 1 {
            1
        } else {
            axis.min
        };
        log_ticks(floor, axis.max, Y_TICK_TARGET)
    } else {
        nice_ticks(axis.min, axis.max, Y_TICK_TARGET)
    };
    let mut out: Vec<TickMark> = Vec::new();
    let mut i: usize = 0;
    while i < values.len()
        invariant
            i <= values@.len(),
            out@.len() == i,
            log == (axis.kind == ScaleKind::Log10),
            forall|j: int|
                0 <= j < i ==> (#[trigger] out@[j]).value == values@[j] && out@[j].label@
                    == y_label_spec(axis.kind, values@[j], axis.min, axis.max, grid_of(axis.resolution)),
        decreases values@.len() - i,
    {
        let v = values[i];
        let label = if log {
            format_log_tick(v, axis.resolution)
        } else {
            format_tick(v, axis.min, axis.max, axis.resolution)
        };
        out.push(TickMark { value: v, label });
        i += 1;
    }
    out
}

/// The minor ticks of the x axis: four in every gap between its major
/// ticks.
pub fn x_minor_ticks(axis: &Axis) -> (out: Vec<i64>)
    ensures
        out@ == minor_ticks_linear_spec(
            nice_ticks_spec(axis.min, axis.max, X_TICK_TARGET as int),
            MINORS_PER_GAP as int,
        ),
{
    let majors = nice_ticks(axis.min, axis.max, X_TICK_TARGET);
    minor_ticks_linear(majors.as_slice(), MINORS_PER_GAP)
}

/// The minor ticks of the y axis: on a logarithmic axis the multiples 2 to
/// 9 of every decade, on a linear one four in every gap between its major
/// ticks.
pub fn y_minor_ticks(axis: &Axis) -> (out: Vec<i64>)
    ensures
        out@ == (if axis.kind == ScaleKind::Log10 {
            minor_ticks_log_spec(log_floor(axis.min), axis.max)
        } else {
            minor_ticks_linear_spec(
                nice_ticks_spec(axis.min, axis.max, Y_TICK_TARGET as int),
                MINORS_PER_GAP as int,
            )
        }),
{
    match axis.kind {
        ScaleKind::Log10 => {
            let floor = if axis.min < 1 {
                1
            } else {
                axis.min
            };
            minor_ticks_log(floor, axis.max)
        },
        ScaleKind::Linear => {
            let majors = nice_ticks(axis.min, axis.max, Y_TICK_TARGET);
            minor_ticks_linear(majors.as_slice(), MINORS_PER_GAP)
        },
    }
}

} // verus!
