//! Hierarchical level-of-detail terrain data: a complete quadtree with a
//! canonical flat-index numbering, little-endian binary decoders for the
//! cell and texture-quadtree file formats, and axis-aligned-bounding-box /
//! view-frustum culling geometry over integer (fixed-point) coordinates.

use vstd::prelude::*;

pub mod aabb;
pub mod cell;
pub mod disk_util;
pub mod error;
pub mod geometry;
pub mod map;
pub mod quadtree;
pub mod texture_quadtree;

verus! {

/// Whether the swapchain images a renderer draws into are still usable.
#[derive(Clone, Copy, Debug, PartialEq, Eq, Structural)]
pub enum SwapchainState {
    Good,
    SubOptimal,
    Dirty,
}

} // verus!
