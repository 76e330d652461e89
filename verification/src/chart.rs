//! The chart model: its series and axes, and the fit of the axes to the data.

use vstd::prelude::*;

use crate::arith::{div_toward_zero, saturate, saturated, trunc_div};
use crate::axis::{Axis, ScaleKind};
use crate::extent::Bounds;
use crate::plugin::{OverlayEvent, OverlayKind};
use crate::series::Series;

verus! {

/// The upper end of a range after a collapsed range was opened by one
/// logical unit of `unit` grid units.
pub open spec fn opened(lo: i64, hi: i64, unit: int) -> int {
    if hi == lo {
        lo + unit
    } else {
        hi as int
    }
}

/// The margin added on each side of a span: `permille` thousandths of it.
pub open spec fn margin_of(span: int, permille: int) -> int {
    trunc_div(span * permille, 1000)
}

/// The margin added on each side of a span of at most 65 bits.
pub(crate) fn margin(span: i128, permille: u32) -> (m: i128)
    requires
        -0x2_0000_0000_0000_0000 <= span <= 0x2_0000_0000_0000_0000,
    ensures
        m == margin_of(span as int, permille as int),
        -0x2_0000_0000_0000_0000 * 0x1_0000_0000 <= m <= 0x2_0000_0000_0000_0000 * 0x1_0000_0000,
{
    assert(-0x2_0000_0000_0000_0000 * 0x1_0000_0000 <= span * permille <= 0x2_0000_0000_0000_0000
        * 0x1_0000_0000) by (nonlinear_arith)
        requires
            -0x2_0000_0000_0000_0000 <= span <= 0x2_0000_0000_0000_0000,
            0 <= permille <= 0x1_0000_0000,
    ;
    div_toward_zero(span * (permille as i128), 1000)
}

/// A chart: data series, the two axes, and the overlays drawn above the
/// series.
pub struct Chart {
    pub series: Vec<Series>,
    pub x_axis: Axis,
    pub y_axis: Axis,
    pub overlays: Vec<OverlayKind>,
}

impl Chart {
    /// An empty chart with the default axes.
    pub fn new() -> (c: Chart)
        ensures
            c.series@.len() == 0,
            c.x_axis.label@ == "Time"@ && c.x_axis.min == 0 && c.x_axis.max == 10,
            c.y_axis.label@ == "Price"@ && c.y_axis.min == 0 && c.y_axis.max == 100,
            c.x_axis.kind == ScaleKind::Linear && c.y_axis.kind == ScaleKind::Linear,
            c.x_axis.resolution == 1 && c.y_axis.resolution == 1,
            c.overlays@.len() == 0,
    {
        Chart {
            series: Vec::new(),
            x_axis: Axis::default_x(),
            y_axis: Axis::default_y(),
            overlays: Vec::new(),
        }
    }

    /// Appends a series.
    pub fn add_series(&mut self, series: Series)
        ensures
            final(self).series@ == old(self).series@.push(series),
            final(self).x_axis == old(self).x_axis,
            final(self).y_axis == old(self).y_axis,
            final(self).overlays == old(self).overlays,
    {
        self.series.push(series);
    }

    /// Appends an overlay.
    pub fn add_overlay(&mut self, overlay: OverlayKind)
        ensures
            final(self).overlays@ == old(self).overlays@.push(overlay),
            final(self).series == old(self).series,
            final(self).x_axis == old(self).x_axis,
            final(self).y_axis == old(self).y_axis,
    {
        self.overlays.push(overlay);
    }

    /// Removes all overlays.
    pub fn clear_overlays(&mut self)
        ensures
            final(self).overlays@.len() == 0,
            final(self).series == old(self).series,
            final(self).x_axis == old(self).x_axis,
            final(self).y_axis == old(self).y_axis,
    {
        self.overlays.clear();
    }

    /// Hands one pointer event to every overlay; each moves to its next
    /// state.
    pub fn handle_overlay_event(&mut self, evt: &OverlayEvent)
        ensures
            final(self).overlays@.len() == old(self).overlays@.len(),
            forall|i: int|
                0 <= i < old(self).overlays@.len() ==> final(self).overlays@[i] == old(
                    self,
                ).overlays@[i].after(*evt),
            final(self).series == old(self).series,
            final(self).x_axis == old(self).x_axis,
            final(self).y_axis == old(self).y_axis,
    {
        let mut next: Vec<OverlayKind> = Vec::new();
        let mut i: usize = 0;
        while i < self.overlays.len()
            invariant
                i <= self.overlays@.len(),
                next@.len() == i,
                forall|j: int| 0 <= j < i ==> next@[j] == self.overlays@[j].after(*evt),
            decreases self.overlays@.len() - i,
        {
            next.push(self.overlays[i].handle(evt));
            i += 1;
        }
        self.overlays = next;
    }

    /// The extremes of all the data the chart's series read.
    pub open spec fn bounds(&self) -> Bounds {
        Bounds::of_series(self.series@, self.series@.len() as int)
    }

    /// Fits both axes to the data. A collapsed range is opened by one
    /// logical unit of its axis,
    /// and the y range grows on each side by `y_margin_permille` thousandths
    /// of its span. Ends that leave the 64-bit range stop at its border. A
    /// chart without data on both axes is left as it is.
    pub fn autoscale_axes(&mut self, y_margin_permille: u32)
        ensures
            final(self).series == old(self).series,
            final(self).overlays == old(self).overlays,
            final(self).x_axis.label == old(self).x_axis.label,
            final(self).x_axis.kind == old(self).x_axis.kind,
            final(self).x_axis.resolution == old(self).x_axis.resolution,
            final(self).y_axis.resolution == old(self).y_axis.resolution,
            final(self).y_axis.label == old(self).y_axis.label,
            final(self).y_axis.kind == old(self).y_axis.kind,
            !old(self).bounds().complete() ==> *final(self) == *old(self),
            old(self).bounds().complete() ==> {
                let b = old(self).bounds();
                let y_top = opened(b.y_lo->0, b.y_hi->0, old(self).y_axis.unit());
                let m = margin_of(y_top - b.y_lo->0, y_margin_permille as int);
                &&& final(self).x_axis.min == b.x_lo->0
                &&& final(self).x_axis.max == saturated(
                    opened(b.x_lo->0, b.x_hi->0, old(self).x_axis.unit()),
                )
                &&& final(self).y_axis.min == saturated(b.y_lo->0 - m)
                &&& final(self).y_axis.max == saturated(y_top + m)
            },
    {
        let b = Bounds::scan(&self.series);
        match (b.x_lo, b.x_hi, b.y_lo, b.y_hi) {
            (Some(x_lo), Some(x_hi), Some(y_lo), Some(y_hi)) => {
                let x_top: i128 = if x_hi == x_lo {
                    x_lo as i128 + self.x_axis.logical_unit() as i128
                } else {
                    x_hi as i128
                };
                let y_top: i128 = if y_hi == y_lo {
                    y_lo as i128 + self.y_axis.logical_unit() as i128
                } else {
                    y_hi as i128
                };
                let m = margin(y_top - y_lo as i128, y_margin_permille);
                self.x_axis.min = x_lo;
                self.x_axis.max = saturate(x_top);
                self.y_axis.min = saturate(y_lo as i128 - m);
                self.y_axis.max = saturate(y_top + m);
            },
            _ => {},
        }
    }
}

} // verus!
