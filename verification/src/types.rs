//! Shared pixel-space types.

use vstd::prelude::*;

verus! {

/// Default surface width in pixels.
pub const WIDTH: i32 = 1024;

/// Default surface height in pixels.
pub const HEIGHT: i32 = 640;

/// Screen margins around the plot area, in pixels.
#[derive(Clone, Copy, Debug, PartialEq, Eq, Structural)]
pub struct Insets {
    pub left: u32,
    pub right: u32,
    pub top: u32,
    pub bottom: u32,
}

impl Insets {
    /// Builds insets from the four margins.
    pub fn new(left: u32, right: u32, top: u32, bottom: u32) -> (r: Self)
        ensures
            r == (Insets { left, right, top, bottom }),
    {
        Insets { left, right, top, bottom }
    }

    /// Total horizontal margin.
    pub open spec fn hsum_spec(&self) -> int {
        self.left + self.right
    }

    /// Total vertical margin.
    pub open spec fn vsum_spec(&self) -> int {
        self.top + self.bottom
    }

    /// Total horizontal margin (left + right).
    pub fn hsum(&self) -> (r: u32)
        requires
            self.left + self.right <= u32::MAX,
        ensures
            r == self.left + self.right,
    {
        self.left + self.right
    }

    /// Total vertical margin (top + bottom).
    pub fn vsum(&self) -> (r: u32)
        requires
            self.top + self.bottom <= u32::MAX,
        ensures
            r == self.top + self.bottom,
    {
        self.top + self.bottom
    }
}

impl Default for Insets {
    fn default() -> (r: Self)
        ensures
            r == (Insets { left: 72, right: 24, top: 24, bottom: 56 }),
    {
        Insets { left: 72, right: 24, top: 24, bottom: 56 }
    }
}

} // verus!
