//! Scale transforms between grid units and pixels: the horizontal time
//! scale and the vertical linear value scale, with their pan and zoom.
//!
//! Pixel positions are counted in millionths of a pixel, so that a position
//! can be held to well within a thousandth of a pixel. Logical values are
//! counted in grid units; a scale states how many of them make one logical
//! unit. A scale holds positions to a thousandth of a pixel where one grid
//! unit covers no more than that: for a time scale under any zoom, from
//! 200000 grid units per logical unit on; most simply a million.

use vstd::prelude::*;

use crate::arith::{
    div_toward_zero, fits_i64, lemma_product_bound, mul_div, saturate, saturated, trunc_div,
};
use crate::geometry::{clamp, clamp_spec};

verus! {

/// Pixel positions are counted in millionths of a pixel: this many make one
/// pixel.
pub const PIXEL_UNIT: i64 = 1_000_000;

/// Largest magnitude of a pixel position, in millionths of a pixel.
pub const PIXEL_LIMIT: i64 = 0x80_0000_0000;

/// A thousandth of a pixel, in millionths of a pixel.
pub const PIXEL_TOLERANCE: i64 = 1_000;

/// Smallest bar spacing a time scale can have: a hundredth of a pixel per
/// logical unit.
pub const SPACING_FLOOR: i64 = 10_000;

/// Smallest bar spacing a zoom can reach: half a pixel per logical unit.
pub const SPACING_ZOOM_MIN: i64 = 500_000;

/// Largest bar spacing a zoom can reach: 200 pixels per logical unit.
pub const SPACING_ZOOM_MAX: i64 = 200_000_000;

/// Largest bar spacing a time scale can have, in millionths of a pixel.
pub const SPACING_CEILING: i64 = 0x100_0000_0000;

/// The number of grid units per logical unit from which every zoomed time
/// scale is fine: at 200 pixels per logical unit, the widest a zoom can
/// reach, one grid unit then covers a thousandth of a pixel.
pub const RESOLUTION_FINE: i64 = 200_000;

/// Largest number of grid units that can make one logical unit.
pub const RESOLUTION_MAX: i64 = 0x10_0000;

/// Largest magnitude of the logical value at the left edge of a time scale,
/// in grid units. It leaves room for every value that a pixel position can
/// stand for.
pub const LOGICAL_LIMIT: i64 = 0x4000_0000_0000_0000;

/// The value nearest to `v` within `[-LOGICAL_LIMIT, LOGICAL_LIMIT]`.
pub open spec fn logical(v: int) -> i64 {
    if v < -LOGICAL_LIMIT {
        (-LOGICAL_LIMIT) as i64
    } else if v > LOGICAL_LIMIT {
        LOGICAL_LIMIT
    } else {
        v as i64
    }
}

fn to_logical(v: i128) -> (r: i64)
    ensures
        r == logical(v as int),
        -LOGICAL_LIMIT <= r <= LOGICAL_LIMIT,
{
    if v < -(LOGICAL_LIMIT as i128) {
        -LOGICAL_LIMIT
    } else if v > LOGICAL_LIMIT as i128 {
        LOGICAL_LIMIT
    } else {
        v as i64
    }
}

/// The pixel position nearest to `v` within `[-PIXEL_LIMIT, PIXEL_LIMIT]`.
pub open spec fn pixel(v: int) -> i64 {
    if v < -PIXEL_LIMIT {
        (-PIXEL_LIMIT) as i64
    } else if v > PIXEL_LIMIT {
        PIXEL_LIMIT
    } else {
        v as i64
    }
}

fn to_pixel(v: i128) -> (r: i64)
    ensures
        r == pixel(v as int),
        -PIXEL_LIMIT <= r <= PIXEL_LIMIT,
{
    if v < -(PIXEL_LIMIT as i128) {
        -PIXEL_LIMIT
    } else if v > PIXEL_LIMIT as i128 {
        PIXEL_LIMIT
    } else {
        v as i64
    }
}

/// General scale operations on both axes, for scales of any kind. Pixel
/// positions are in millionths of a pixel, the zoom factor in thousandths.
pub trait ScaleTransform {
    fn to_screen_x(&self, x: i64) -> i64;

    fn to_screen_y(&self, y: i64) -> i64;

    fn from_screen_x(&self, px: i64) -> i64;

    fn from_screen_y(&self, py: i64) -> i64;

    fn zoom(&mut self, cx_logical: i64, factor_permille: i64);

    fn pan(&mut self, dx_px: i64, dy_px: i64);
}

/// The horizontal scale: the pixel position of the left edge, the logical
/// value there in grid units, the spacing of one logical unit in millionths
/// of a pixel, and the number of grid units that make one logical unit.
#[derive(Clone, Copy, Debug, PartialEq, Eq, Structural)]
pub struct TimeScale {
    pub left_px: i64,
    pub start_logical: i64,
    pub bar_spacing: i64,
    pub resolution: i64,
}

impl TimeScale {
    /// The left edge is a pixel position, the start lies within the logical
    /// range, the resolution is positive and not above its limit, and the
    /// spacing lies between its floor and its ceiling.
    pub open spec fn wf(self) -> bool {
        &&& -PIXEL_LIMIT <= self.left_px <= PIXEL_LIMIT
        &&& -LOGICAL_LIMIT <= self.start_logical <= LOGICAL_LIMIT
        &&& 1 <= self.resolution <= RESOLUTION_MAX
        &&& SPACING_FLOOR <= self.bar_spacing <= SPACING_CEILING
    }

    /// Whether one grid unit covers no more than a thousandth of a pixel.
    pub open spec fn fine(self) -> bool {
        self.bar_spacing <= PIXEL_TOLERANCE * self.resolution
    }

    /// The exact pixel position of a value of `x` grid units:
    /// `left_px + (x - start_logical) * bar_spacing / resolution`, rounded
    /// toward the left edge.
    pub open spec fn px_of(self, x: int) -> int {
        self.left_px + trunc_div((x - self.start_logical) * self.bar_spacing, self.resolution as int)
    }

    /// The exact logical value, in grid units, at a pixel position:
    /// `start_logical + (px - left_px) * resolution / bar_spacing`, rounded
    /// toward the left edge.
    pub open spec fn logical_at(self, px: int) -> int {
        self.start_logical + trunc_div((px - self.left_px) * self.resolution, self.bar_spacing as int)
    }

    /// The spacing after a zoom by `factor_permille` thousandths: scaled,
    /// then kept within half a pixel and 200 pixels per logical unit.
    pub open spec fn zoomed_spacing(self, factor_permille: i64) -> int {
        clamp_spec(
            trunc_div(factor_permille * self.bar_spacing, 1000),
            SPACING_ZOOM_MIN as int,
            SPACING_ZOOM_MAX as int,
        )
    }

    /// The scale after a zoom about the pixel `cursor_px`: the new spacing,
    /// and the start moved so that the logical value that was under the
    /// cursor stays there.
    pub open spec fn zoomed_at(self, cursor_px: i64, factor_permille: i64) -> TimeScale {
        let spacing = self.zoomed_spacing(factor_permille);
        let at = pixel(cursor_px as int);
        let cx = self.logical_at(at as int);
        TimeScale {
            left_px: self.left_px,
            start_logical: logical(cx - trunc_div((at - self.left_px) * self.resolution, spacing)),
            bar_spacing: spacing as i64,
            resolution: self.resolution,
        }
    }

    /// A time scale. The left edge is brought within the pixel range, the
    /// start within the logical range, the resolution within one and its
    /// limit, and the spacing between its floor and its ceiling.
    pub fn new(left_px: i64, start_logical: i64, bar_spacing: i64, resolution: i64) -> (s: TimeScale)
        ensures
            s.wf(),
            s.left_px == pixel(left_px as int),
            s.start_logical == logical(start_logical as int),
            s.resolution == clamp_spec(resolution as int, 1, RESOLUTION_MAX as int),
            s.bar_spacing == clamp_spec(
                bar_spacing as int,
                SPACING_FLOOR as int,
                SPACING_CEILING as int,
            ),
    {
        let res = clamp(resolution, 1, RESOLUTION_MAX);
        TimeScale {
            left_px: to_pixel(left_px as i128),
            start_logical: to_logical(start_logical as i128),
            bar_spacing: clamp(bar_spacing, SPACING_FLOOR, SPACING_CEILING),
            resolution: res,
        }
    }

    /// The pixel position of a logical value, kept within the pixel range.
    pub fn to_px(&self, x: i64) -> (px: i64)
        requires
            self.wf(),
        ensures
            px == pixel(self.px_of(x as int)),
    {
        let d: i128 = x as i128 - self.start_logical as i128;
        to_pixel(self.left_px as i128 + mul_div(d, self.bar_spacing as i128, self.resolution as i128))
    }

    // The grid units that a pixel distance covers at a spacing.
    fn units_over(&self, d: i128, spacing: i128) -> (q: i128)
        requires
            self.wf(),
            -0x100_0000_0000 <= d <= 0x100_0000_0000,
            spacing >= 1,
        ensures
            q == trunc_div(d * self.resolution, spacing as int),
            -0x1000_0000_0000_0000 <= q <= 0x1000_0000_0000_0000,
    {
        proof {
            lemma_product_bound(d as int, self.resolution as int, 0x100_0000_0000, 0x10_0000);
        }
        div_toward_zero(d * (self.resolution as i128), spacing)
    }

    /// The logical value at a pixel position. A position outside the pixel
    /// range counts as the nearest one inside.
    pub fn from_px(&self, px: i64) -> (x: i64)
        requires
            self.wf(),
        ensures
            x == self.logical_at(pixel(px as int) as int),
    {
        let d: i128 = to_pixel(px as i128) as i128 - self.left_px as i128;
        (self.start_logical as i128 + self.units_over(d, self.bar_spacing as i128)) as i64
    }

    /// Zooms by `factor_permille` thousandths about the pixel `cursor_px`:
    /// the spacing is scaled and kept within half a pixel and 200 pixels per
    /// logical unit, and the logical value under the cursor stays under it.
    pub fn zoom_at(&mut self, cursor_px: i64, factor_permille: i64)
        requires
            old(self).wf(),
        ensures
            final(self).wf(),
            *final(self) == old(self).zoomed_at(cursor_px, factor_permille),
    {
        let cx = self.from_px(cursor_px);
        let scaled = mul_div(factor_permille as i128, self.bar_spacing as i128, 1000);
        let spacing: i128 = if scaled < SPACING_ZOOM_MIN as i128 {
            SPACING_ZOOM_MIN as i128
        } else if scaled > SPACING_ZOOM_MAX as i128 {
            SPACING_ZOOM_MAX as i128
        } else {
            scaled
        };
        let d: i128 = to_pixel(cursor_px as i128) as i128 - self.left_px as i128;
        let back = self.units_over(d, spacing);
        self.bar_spacing = spacing as i64;
        self.start_logical = to_logical(cx as i128 - back);
    }

    /// Pans by a drag of `dx_px` millionths of a pixel: the start moves
    /// against the drag by as many grid units as the drag covers at the
    /// current spacing.
    pub fn pan_px(&mut self, dx_px: i64)
        requires
            old(self).wf(),
        ensures
            final(self).wf(),
            final(self).left_px == old(self).left_px,
            final(self).bar_spacing == old(self).bar_spacing,
            final(self).resolution == old(self).resolution,
            final(self).start_logical == logical(
                old(self).start_logical - trunc_div(
                    pixel(dx_px as int) * old(self).resolution,
                    old(self).bar_spacing as int,
                ),
            ),
    {
        let d: i128 = to_pixel(dx_px as i128) as i128;
        let shift = self.units_over(d, self.bar_spacing as i128);
        self.start_logical = to_logical(self.start_logical as i128 - shift);
    }
}

/// Going from a distance `d` to `d * k / s` and back by `* s / k`, each
/// rounded toward zero, comes back to within `s / k + 1` of `d`, on the
/// side of zero.
pub proof fn lemma_there_and_back(d: int, k: int, s: int)
    requires
        k >= 1,
        s >= 1,
    ensures
        ({
            let q = trunc_div(d * k, s);
            let r = trunc_div(q * s, k);
            &&& d >= 0 ==> 0 <= r <= d && k * (d - r) < s + k
            &&& d <= 0 ==> d <= r <= 0 && k * (r - d) < s + k
        }),
{
    let m = if d >= 0 {
        d
    } else {
        -d
    };
    assert(d * k == if d >= 0 {
        m * k
    } else {
        -(m * k)
    }) by (nonlinear_arith)
        requires
            m == if d >= 0 {
                d
            } else {
                -d
            },
    ;
    assert(m * k >= 0) by (nonlinear_arith)
        requires
            m >= 0,
            k >= 1,
    ;
    let q = (m * k) / s;
    assert(0 <= q && q * s <= m * k < q * s + s) by (nonlinear_arith)
        requires
            m * k >= 0,
            s >= 1,
            q == (m * k) / s,
    ;
    let r = (q * s) / k;
    assert(0 <= r && r * k <= q * s < r * k + k) by (nonlinear_arith)
        requires
            q * s >= 0,
            k >= 1,
            r == (q * s) / k,
    ;
    assert(r <= m) by (nonlinear_arith)
        requires
            r * k <= m * k,
            k >= 1,
    ;
    assert(k * (m - r) == m * k - r * k) by (nonlinear_arith);
    assert((-q) * s == -(q * s)) by (nonlinear_arith);
    if d < 0 {
        assert(trunc_div(d * k, s) == -q);
        assert(trunc_div((-q) * s, k) == -r);
    }
}

/// Where going there and back loses less than `s / k + 1` and one step of
/// `k` covers at most a thousand of `s`, the loss is at most a thousand.
proof fn lemma_loss_within_tolerance(e: int, k: int, s: int)
    requires
        k >= 1,
        e >= 0,
        k * e < s + k,
        s <= PIXEL_TOLERANCE * k,
    ensures
        e <= PIXEL_TOLERANCE,
{
    assert(e <= 1000) by (nonlinear_arith)
        requires
            k >= 1,
            e >= 0,
            k * e < s + k,
            s <= 1000 * k,
    ;
}

/// Round trip on the time scale: where one grid unit covers no more than a
/// thousandth of a pixel, the pixel of the logical value at any pixel lies
/// within a thousandth of a pixel of it, on the side of the left edge.
pub proof fn lemma_time_round_trip(s: TimeScale, px: int)
    requires
        s.wf(),
        s.fine(),
    ensures
        ({
            let back = s.px_of(s.logical_at(px));
            &&& px >= s.left_px ==> px - PIXEL_TOLERANCE <= back <= px
            &&& px <= s.left_px ==> px <= back <= px + PIXEL_TOLERANCE
        }),
{
    lemma_there_and_back(px - s.left_px, s.resolution as int, s.bar_spacing as int);
    let back = s.px_of(s.logical_at(px));
    if px >= s.left_px {
        lemma_loss_within_tolerance(px - back, s.resolution as int, s.bar_spacing as int);
    }
    if px <= s.left_px {
        lemma_loss_within_tolerance(back - px, s.resolution as int, s.bar_spacing as int);
    }
}

/// Round trip on the time scale, whatever the grid: the pixel of the logical
/// value at any pixel lies on the side of the left edge, nearer than what
/// one grid unit covers and a millionth of a pixel more.
pub proof fn lemma_time_round_trip_on_any_grid(s: TimeScale, px: int)
    requires
        s.wf(),
    ensures
        ({
            let back = s.px_of(s.logical_at(px));
            &&& px >= s.left_px ==> back <= px && s.resolution * (px - back) < s.bar_spacing
                + s.resolution
            &&& px <= s.left_px ==> px <= back && s.resolution * (back - px) < s.bar_spacing
                + s.resolution
        }),
{
    lemma_there_and_back(px - s.left_px, s.resolution as int, s.bar_spacing as int);
}

/// Round trip through the two functions of a time scale: on a scale where
/// one grid unit covers no more than a thousandth of a pixel, what `to_px`
/// gives for what `from_px` gives lies within a thousandth of a pixel of the
/// position (of the nearest position in the pixel range, for one outside
/// it), for every position.
pub proof fn lemma_time_round_trip_of_results(s: TimeScale, px: i64)
    requires
        s.wf(),
        s.fine(),
    ensures
        ({
            let at = pixel(px as int);
            let there = s.logical_at(at as int);
            let back = pixel(s.px_of(there));
            at - PIXEL_TOLERANCE <= back <= at + PIXEL_TOLERANCE
        }),
{
    lemma_time_round_trip(s, pixel(px as int) as int);
}

/// A zoomed scale is well formed, its spacing lies within half a pixel and
/// 200 pixels per logical unit, and its left edge and resolution are those
/// of the scale before. From 200000 grid units per logical unit on it is
/// fine.
pub proof fn lemma_zoomed_is_bounded(s: TimeScale, cursor_px: i64, factor_permille: i64)
    requires
        s.wf(),
    ensures
        s.zoomed_at(cursor_px, factor_permille).wf(),
        SPACING_ZOOM_MIN <= s.zoomed_at(cursor_px, factor_permille).bar_spacing <= SPACING_ZOOM_MAX,
        s.zoomed_at(cursor_px, factor_permille).left_px == s.left_px,
        s.zoomed_at(cursor_px, factor_permille).resolution == s.resolution,
        s.resolution >= RESOLUTION_FINE ==> s.zoomed_at(cursor_px, factor_permille).fine(),
{
}

/// Zoom anchor: from 200000 grid units per logical unit on, the logical
/// value that was under the cursor before a zoom lies within a thousandth
/// of a pixel of the cursor after it, wherever the new start did not have
/// to stop at the border of its range. A cursor outside the pixel range
/// counts as the nearest position inside.
pub proof fn lemma_zoom_keeps_anchor(s: TimeScale, cursor_px: i64, factor_permille: i64)
    requires
        s.wf(),
        s.resolution >= RESOLUTION_FINE,
        -LOGICAL_LIMIT <= s.logical_at(pixel(cursor_px as int) as int) - trunc_div(
            (pixel(cursor_px as int) - s.left_px) * s.resolution,
            s.zoomed_spacing(factor_permille),
        ) <= LOGICAL_LIMIT,
    ensures
        ({
            let at = pixel(cursor_px as int);
            let z = s.zoomed_at(cursor_px, factor_permille);
            let anchor = pixel(z.px_of(s.logical_at(at as int)));
            at - PIXEL_TOLERANCE <= anchor <= at + PIXEL_TOLERANCE
        }),
{
    let at = pixel(cursor_px as int);
    let z = s.zoomed_at(cursor_px, factor_permille);
    let spacing = s.zoomed_spacing(factor_permille);
    let d = at - s.left_px;
    lemma_there_and_back(d, s.resolution as int, spacing);
    let anchor = z.px_of(s.logical_at(at as int));
    if d >= 0 {
        lemma_loss_within_tolerance(at - anchor, s.resolution as int, spacing);
    }
    if d <= 0 {
        lemma_loss_within_tolerance(anchor - at, s.resolution as int, spacing);
    }
}

/// Zoom anchor, before against after: on a fine scale of at least 200000
/// grid units per logical unit, for every cursor and factor, what `to_px`
/// gives for what `from_px` gives at the cursor lies within a thousandth of
/// a pixel of the cursor before the zoom and after it, so the two differ by
/// no more than two thousandths. A cursor outside the pixel range counts as
/// the nearest position inside.
pub proof fn lemma_zoom_keeps_round_trip(s: TimeScale, cursor_px: i64, factor_permille: i64)
    requires
        s.wf(),
        s.fine(),
        s.resolution >= RESOLUTION_FINE,
    ensures
        ({
            let at = pixel(cursor_px as int);
            let z = s.zoomed_at(cursor_px, factor_permille);
            let before = pixel(s.px_of(s.logical_at(at as int)));
            let after = pixel(z.px_of(z.logical_at(at as int)));
            &&& z.wf()
            &&& at - PIXEL_TOLERANCE <= before <= at + PIXEL_TOLERANCE
            &&& at - PIXEL_TOLERANCE <= after <= at + PIXEL_TOLERANCE
            &&& -2 * PIXEL_TOLERANCE <= after - before <= 2 * PIXEL_TOLERANCE
        }),
{
    let z = s.zoomed_at(cursor_px, factor_permille);
    lemma_time_round_trip_of_results(s, cursor_px);
    lemma_time_round_trip_of_results(z, cursor_px);
}

/// The vertical linear scale: the values `vmin` and `vmax`, in grid units
/// of which `resolution` make one logical unit, map to the pixel positions
/// `bottom_px` and `top_px`. Values are whole grid units, so a pixel
/// position is held as closely as the grid allows: to a thousandth of a
/// pixel wherever one grid unit covers no more than that.
#[derive(Clone, Copy, Debug, PartialEq, Eq, Structural)]
pub struct ValueScale {
    pub top_px: i64,
    pub bottom_px: i64,
    pub vmin: i64,
    pub vmax: i64,
    pub resolution: i64,
}

impl ValueScale {
    /// Both edges are pixel positions, and the resolution is positive and
    /// not above its limit.
    pub open spec fn wf(self) -> bool {
        &&& -PIXEL_LIMIT <= self.top_px <= PIXEL_LIMIT
        &&& -PIXEL_LIMIT <= self.bottom_px <= PIXEL_LIMIT
        &&& 1 <= self.resolution <= RESOLUTION_MAX
    }

    /// The span of values shown, at least one grid unit.
    pub open spec fn span(self) -> int {
        if self.vmax - self.vmin < 1 {
            1
        } else {
            self.vmax - self.vmin
        }
    }

    /// The height in millionths of a pixel, `bottom_px - top_px`.
    pub open spec fn height(self) -> int {
        self.bottom_px - self.top_px
    }

    /// Whether one grid unit covers no more than a thousandth of a pixel.
    pub open spec fn fine(self) -> bool {
        self.height() <= PIXEL_TOLERANCE * self.span()
    }

    /// The exact pixel position of a value:
    /// `bottom_px - (y - vmin) / span * height`, rounded toward the bottom.
    pub open spec fn px_of(self, y: int) -> int {
        self.bottom_px - trunc_div((y - self.vmin) * self.height(), self.span())
    }

    /// The exact value at a pixel position:
    /// `vmin + (bottom_px - py) / height * span`, rounded toward `vmin`;
    /// `vmin` for a scale without height.
    pub open spec fn value_at(self, py: int) -> int {
        let h = self.height();
        if h > 0 {
            self.vmin + trunc_div((self.bottom_px - py) * self.span(), h)
        } else if h < 0 {
            self.vmin - trunc_div((self.bottom_px - py) * self.span(), -h)
        } else {
            self.vmin as int
        }
    }

    /// The shift of both ends, in grid units, for a drag of `dy_px`
    /// millionths of a pixel: the share `dy_px / height` of the span, the
    /// height taken as at least one pixel.
    pub open spec fn pan_shift(self, dy_px: i64) -> int {
        let h = if self.height() < PIXEL_UNIT {
            PIXEL_UNIT as int
        } else {
            self.height()
        };
        trunc_div(self.span() * pixel(dy_px as int), h)
    }

    /// The span after a zoom by `factor_permille` thousandths, at least one
    /// grid unit.
    pub open spec fn zoomed_span(self, factor_permille: i64) -> int {
        let raw = trunc_div(self.span() * 1000, factor_permille as int);
        if raw < 1 {
            1
        } else {
            raw
        }
    }

    /// A linear scale over values in grid units of which `resolution` make
    /// one logical unit. The edges are brought within the pixel range, the
    /// resolution within one and its limit, and a collapsed range is opened
    /// by one logical unit.
    pub fn new_linear(top_px: i64, bottom_px: i64, vmin: i64, vmax: i64, resolution: i64) -> (s:
        ValueScale)
        ensures
            s.wf(),
            s.top_px == pixel(top_px as int),
            s.bottom_px == pixel(bottom_px as int),
            s.vmin == vmin,
            s.resolution == clamp_spec(resolution as int, 1, RESOLUTION_MAX as int),
            s.vmax == if vmax == vmin {
                saturated(vmin + clamp_spec(resolution as int, 1, RESOLUTION_MAX as int))
            } else {
                vmax
            },
    {
        let res = clamp(resolution, 1, RESOLUTION_MAX);
        let top = if vmax == vmin {
            saturate(vmin as i128 + res as i128)
        } else {
            vmax
        };
        ValueScale {
            top_px: to_pixel(top_px as i128),
            bottom_px: to_pixel(bottom_px as i128),
            vmin,
            vmax: top,
            resolution: res,
        }
    }

    fn span_of(&self) -> (r: i128)
        ensures
            r == self.span(),
            1 <= r <= 0xFFFF_FFFF_FFFF_FFFF,
    {
        let d: i128 = self.vmax as i128 - self.vmin as i128;
        if d < 1 {
            1
        } else {
            d
        }
    }

    /// The pixel position of a value, kept within the pixel range.
    pub fn to_px(&self, y: i64) -> (px: i64)
        requires
            self.wf(),
        ensures
            px == pixel(self.px_of(y as int)),
    {
        let span = self.span_of();
        let h: i128 = self.bottom_px as i128 - self.top_px as i128;
        let d: i128 = y as i128 - self.vmin as i128;
        to_pixel(self.bottom_px as i128 - mul_div(d, h, span))
    }

    /// The value at a pixel position, kept within 64 bits. A position
    /// outside the pixel range counts as the nearest one inside.
    pub fn from_px(&self, py: i64) -> (y: i64)
        requires
            self.wf(),
        ensures
            y == saturated(self.value_at(pixel(py as int) as int)),
    {
        let span = self.span_of();
        let h: i128 = self.bottom_px as i128 - self.top_px as i128;
        let d: i128 = self.bottom_px as i128 - to_pixel(py as i128) as i128;
        assert(span * d == d * span) by (nonlinear_arith);
        if h > 0 {
            saturate(self.vmin as i128 + mul_div(span, d, h))
        } else if h < 0 {
            saturate(self.vmin as i128 - mul_div(span, d, -h))
        } else {
            self.vmin
        }
    }

    /// Pans by a drag of `dy_px` millionths of a pixel: both ends move by
    /// the share of the span that the drag covers. A pan that would leave
    /// the 64-bit range does nothing.
    pub fn pan_px(&mut self, dy_px: i64)
        requires
            old(self).wf(),
        ensures
            final(self).top_px == old(self).top_px,
            final(self).bottom_px == old(self).bottom_px,
            final(self).resolution == old(self).resolution,
            ({
                let delta = old(self).pan_shift(dy_px);
                if i64::MIN <= old(self).vmin + delta <= i64::MAX && i64::MIN <= old(self).vmax
                    + delta <= i64::MAX {
                    final(self).vmin == old(self).vmin + delta && final(self).vmax == old(self).vmax
                        + delta
                } else {
                    *final(self) == *old(self)
                }
            }),
    {
        let span = self.span_of();
        let raw: i128 = self.bottom_px as i128 - self.top_px as i128;
        let h: i128 = if raw < PIXEL_UNIT as i128 {
            PIXEL_UNIT as i128
        } else {
            raw
        };
        let delta = mul_div(span, to_pixel(dy_px as i128) as i128, h);
        let lo: i128 = self.vmin as i128 + delta;
        let hi: i128 = self.vmax as i128 + delta;
        if fits_i64(lo) && fits_i64(hi) {
            self.vmin = lo as i64;
            self.vmax = hi as i64;
        }
    }

    /// Zooms by `factor_permille` thousandths about a value: the span is
    /// divided by the factor and laid around the centre, the lower half
    /// rounded down. A factor that is not positive, or a result that would
    /// leave the 64-bit range, changes nothing.
    pub fn zoom_center(&mut self, center_y: i64, factor_permille: i64)
        ensures
            final(self).top_px == old(self).top_px,
            final(self).bottom_px == old(self).bottom_px,
            final(self).resolution == old(self).resolution,
            ({
                let span = old(self).zoomed_span(factor_permille);
                let lo = center_y - span / 2;
                if factor_permille > 0 && i64::MIN <= lo && lo + span <= i64::MAX {
                    final(self).vmin == lo && final(self).vmax == lo + span
                } else {
                    *final(self) == *old(self)
                }
            }),
    {
        if factor_permille <= 0 {
            return ;
        }
        let span = self.span_of();
        let raw = mul_div(span, 1000, factor_permille as i128);
        let new_span: i128 = if raw < 1 {
            1
        } else {
            raw
        };
        let lo: i128 = center_y as i128 - new_span / 2;
        let hi: i128 = lo + new_span;
        if fits_i64(lo) && fits_i64(hi) {
            self.vmin = lo as i64;
            self.vmax = hi as i64;
        }
    }
}

/// Round trip on the value scale: where one grid unit covers no more than a
/// thousandth of a pixel, the pixel of the value at a pixel between top and
/// bottom lies within a thousandth of a pixel of it, on the side of the
/// bottom.
pub proof fn lemma_value_round_trip(s: ValueScale, py: int)
    requires
        s.wf(),
        s.fine(),
        s.top_px < s.bottom_px,
        s.top_px <= py <= s.bottom_px,
    ensures
        ({
            let back = s.px_of(s.value_at(py));
            py <= back <= py + PIXEL_TOLERANCE && back <= s.bottom_px
        }),
{
    lemma_there_and_back(s.bottom_px - py, s.span(), s.height());
    let back = s.px_of(s.value_at(py));
    lemma_loss_within_tolerance(back - py, s.span(), s.height());
}

/// Round trip through the two functions of a value scale: on a scale whose
/// range is not collapsed or inverted and where one grid unit covers no
/// more than a thousandth of a pixel, what `to_px` gives for what `from_px`
/// gives at a pixel between top and bottom lies within a thousandth of a
/// pixel of it.
pub proof fn lemma_value_round_trip_of_results(s: ValueScale, py: i64)
    requires
        s.wf(),
        s.fine(),
        s.top_px < s.bottom_px,
        s.vmin < s.vmax,
        s.top_px <= py <= s.bottom_px,
    ensures
        ({
            let there = saturated(s.value_at(pixel(py as int) as int));
            let back = pixel(s.px_of(there as int));
            &&& s.vmin <= there <= s.vmax
            &&& py <= back <= py + PIXEL_TOLERANCE
        }),
{
    let d = s.bottom_px - py;
    let h = s.height();
    let span = s.span();
    assert(0 <= (d * span) / h <= span && d * span >= 0) by (nonlinear_arith)
        requires
            0 <= d <= h,
            h > 0,
            span >= 1,
    ;
    lemma_value_round_trip(s, py as int);
}

/// Round trip on the value scale, whatever the grid: the pixel of the value
/// at a pixel between top and bottom lies at or below it, by less than what
/// one grid unit covers and a millionth of a pixel more.
pub proof fn lemma_value_round_trip_on_any_grid(s: ValueScale, py: int)
    requires
        s.top_px < s.bottom_px,
        s.top_px <= py <= s.bottom_px,
    ensures
        ({
            let back = s.px_of(s.value_at(py));
            py <= back <= s.bottom_px && s.span() * (back - py) < s.height() + s.span()
        }),
{
    lemma_there_and_back(s.bottom_px - py, s.span(), s.height());
}

/// A pan keeps the distance between the two ends of the value scale.
pub proof fn lemma_value_pan_keeps_span(s: ValueScale, dy_px: i64)
    ensures
        (s.vmax + s.pan_shift(dy_px)) - (s.vmin + s.pan_shift(dy_px)) == s.vmax - s.vmin,
{
}

} // verus!
