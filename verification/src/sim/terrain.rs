//! The terrain of the erosion simulation: 1600 by 800 cells.

use vstd::prelude::*;

use crate::grid::TerrainGrid;

verus! {

/// Columns of the simulated terrain.
pub const WIDTH: usize = 1600;

/// Rows of the simulated terrain.
pub const HEIGHT: usize = 800;

/// The simulated terrain.
pub type Terrain = TerrainGrid<WIDTH, HEIGHT>;

} // verus!
