//! The map-level placement parameters a cell needs to compute world-space
//! positions: the horizontal and vertical scales, the base elevation and
//! the cell width, all in fixed-point world units.

use vstd::prelude::*;

verus! {

/// Bound on the fixed-point horizontal and vertical scales.
pub const SCALE_LIMIT: i64 = 0x10_0000;

/// Bound on the base elevation.
pub const ELEV_LIMIT: i64 = 0x100_0000_0000;

/// Bound on a cell's width in heightfield samples.
pub const CELL_WIDTH_LIMIT: u32 = 0x1000;

/// Bound on a cell's row and column in the map grid.
pub const CELL_GRID_LIMIT: u32 = 0x800;

/// What a cell consumes from the map's configuration, as fixed-point
/// integers: a loader picks the fixed-point scale once and converts the
/// map's floating-point configuration at the boundary.
#[derive(Clone, Copy, Debug, PartialEq, Eq, Structural)]
pub struct MapParams {
    pub h_scale: i64,
    pub v_scale: i64,
    pub base_elevation: i64,
    pub cell_width: u32,
}

/// Parameters on which the placement arithmetic stays within the
/// coordinate range of the culling geometry.
pub open spec fn params_in_range(p: MapParams) -> bool {
    &&& 0 <= p.h_scale <= SCALE_LIMIT
    &&& 0 <= p.v_scale <= SCALE_LIMIT
    &&& -ELEV_LIMIT <= p.base_elevation <= ELEV_LIMIT
    &&& p.cell_width <= CELL_WIDTH_LIMIT
}

impl MapParams {
    /// Width of one cell in world units.
    pub open spec fn spec_world_cell_width(&self) -> int {
        self.h_scale * self.cell_width
    }

    /// Width of one cell in world units.
    pub fn world_cell_width(&self) -> (r: i64)
        requires
            params_in_range(*self),
        ensures
            r == self.spec_world_cell_width(),
    {
        proof {
            vstd::arithmetic::mul::lemma_mul_upper_bound(
                self.h_scale as int,
                SCALE_LIMIT as int,
                self.cell_width as int,
                CELL_WIDTH_LIMIT as int,
            );
            vstd::arithmetic::mul::lemma_mul_nonnegative(
                self.h_scale as int,
                self.cell_width as int,
            );
        }
        self.h_scale * (self.cell_width as i64)
    }
}

} // verus!
