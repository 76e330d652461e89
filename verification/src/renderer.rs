//! The handle through which a drawing backend is reached.

use vstd::prelude::*;

verus! {

/// A raster renderer. It holds no state of its own: surfaces are made and
/// owned by the code that draws.
#[derive(Clone, Copy, Debug, PartialEq, Eq, Structural)]
pub struct SkiaRenderer;

impl SkiaRenderer {
    /// A renderer.
    pub fn new() -> (r: Self)
        ensures
            r == SkiaRenderer,
    {
        SkiaRenderer
    }
}

} // verus!
