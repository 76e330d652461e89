//! Axis model: a label, a logical range and a scale kind.

use vstd::prelude::*;
use vstd::string::StringExecFns;

use crate::geometry::{clamp, clamp_spec};
use crate::scale::RESOLUTION_MAX;

verus! {

/// How values map onto an axis.
#[derive(Clone, Copy, Debug, PartialEq, Eq, Structural)]
pub enum ScaleKind {
    Linear,
    Log10,
}

/// One chart axis. `min` and `max` are in grid units, of which
/// `resolution` make one logical unit.
#[derive(Clone, Debug)]
pub struct Axis {
    pub label: String,
    pub min: i64,
    pub max: i64,
    pub kind: ScaleKind,
    pub resolution: i64,
}

impl Axis {
    /// One logical unit of the axis, in grid units: the resolution, brought
    /// within one and its limit.
    pub open spec fn unit(self) -> int {
        clamp_spec(self.resolution as int, 1, RESOLUTION_MAX as int)
    }

    /// One logical unit of the axis, in grid units.
    pub fn logical_unit(&self) -> (u: i64)
        ensures
            u == self.unit(),
    {
        clamp(self.resolution, 1, RESOLUTION_MAX)
    }

    /// A linear axis with the given label and range, on a grid of one unit
    /// per logical unit.
    pub fn new(label: &str, min: i64, max: i64) -> (a: Axis)
        ensures
            a.label@ == label@,
            a.min == min,
            a.max == max,
            a.kind == ScaleKind::Linear,
            a.resolution == 1,
    {
        Axis { label: String::from_str(label), min, max, kind: ScaleKind::Linear, resolution: 1 }
    }

    /// The same axis on a grid of `resolution` units per logical unit.
    pub fn with_resolution(self, resolution: i64) -> (a: Axis)
        ensures
            a.label == self.label,
            a.min == self.min,
            a.max == self.max,
            a.kind == self.kind,
            a.resolution == clamp_spec(resolution as int, 1, RESOLUTION_MAX as int),
    {
        Axis {
            label: self.label,
            min: self.min,
            max: self.max,
            kind: self.kind,
            resolution: clamp(resolution, 1, RESOLUTION_MAX),
        }
    }

    /// The default horizontal axis: "Time" over `[0, 10]`.
    pub fn default_x() -> (a: Axis)
        ensures
            a.label@ == "Time"@,
            a.min == 0,
            a.max == 10,
            a.kind == ScaleKind::Linear,
            a.resolution == 1,
    {
        Axis::new("Time", 0, 10)
    }

    /// The default vertical axis: "Price" over `[0, 100]`.
    pub fn default_y() -> (a: Axis)
        ensures
            a.label@ == "Price"@,
            a.min == 0,
            a.max == 100,
            a.kind == ScaleKind::Linear,
            a.resolution == 1,
    {
        Axis::new("Price", 0, 100)
    }
}

} // verus!
