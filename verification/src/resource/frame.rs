//! Sizes of frames and images.

use vstd::prelude::*;

verus! {

/// A two-dimensional size in pixels.
#[derive(Debug, Clone, PartialEq, Eq, Structural)]
pub struct Extent2D {
    pub width: u32,
    pub height: u32,
}

/// A three-dimensional size in pixels.
#[derive(Debug, Clone, PartialEq, Eq, Structural)]
pub struct Extent3D {
    pub width: u32,
    pub height: u32,
    pub depth: u32,
}

} // verus!
