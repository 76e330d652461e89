//! Lightweight geometry helpers for pixel arithmetic.

use vstd::prelude::*;
use vstd::std_specs::cmp::{PartialOrdIs, PartialOrdSpec};

verus! {

/// An axis-aligned rectangle in integer pixel coordinates.
#[derive(Clone, Copy, Debug, PartialEq, Eq, Structural)]
pub struct RectI32 {
    pub left: i32,
    pub top: i32,
    pub right: i32,
    pub bottom: i32,
}

impl RectI32 {
    /// Builds a rectangle from its four edges.
    pub fn from_ltrb(left: i32, top: i32, right: i32, bottom: i32) -> (r: Self)
        ensures
            r == (RectI32 { left, top, right, bottom }),
    {
        RectI32 { left, top, right, bottom }
    }

    /// Builds a rectangle from its top-left corner and its size.
    pub fn from_ltwh(left: i32, top: i32, width: i32, height: i32) -> (r: Self)
        requires
            i32::MIN <= left + width <= i32::MAX,
            i32::MIN <= top + height <= i32::MAX,
        ensures
            r.left == left,
            r.top == top,
            r.right == left + width,
            r.bottom == top + height,
    {
        RectI32 { left, top, right: left + width, bottom: top + height }
    }

    /// Horizontal extent, `right - left`.
    pub fn width(&self) -> (w: i32)
        requires
            i32::MIN <= self.right - self.left <= i32::MAX,
        ensures
            w == self.right - self.left,
    {
        self.right - self.left
    }

    /// Vertical extent, `bottom - top`.
    pub fn height(&self) -> (h: i32)
        requires
            i32::MIN <= self.bottom - self.top <= i32::MAX,
        ensures
            h == self.bottom - self.top,
    {
        self.bottom - self.top
    }
}

/// The value nearest to `v` that a clamp to `[lo, hi]` yields: `lo` when `v`
/// is below it, else `hi` when `v` is above it, else `v` itself.
pub open spec fn clamp_spec(v: int, lo: int, hi: int) -> int {
    if v < lo {
        lo
    } else if v > hi {
        hi
    } else {
        v
    }
}

/// Restricts `v` to the interval `[lo, hi]`: `lo` when `v` is below it,
/// else `hi` when `v` is above it, else `v` itself. The result is stated
/// for every type whose `<` and `>` are the order that the type declares.
pub fn clamp<T: PartialOrd>(v: T, lo: T, hi: T) -> (r: T)
    ensures
        T::obeys_partial_cmp_spec() ==> r == (if v.is_lt(&lo) {
            lo
        } else if v.is_gt(&hi) {
            hi
        } else {
            v
        }),
{
    if v < lo {
        lo
    } else if v > hi {
        hi
    } else {
        v
    }
}

/// A clamp into a non-empty interval lands inside it, and leaves alone what
/// already lies inside.
pub proof fn lemma_clamp_in_range(v: int, lo: int, hi: int)
    requires
        lo <= hi,
    ensures
        lo <= clamp_spec(v, lo, hi) <= hi,
        lo <= v <= hi ==> clamp_spec(v, lo, hi) == v,
{
}

} // verus!
