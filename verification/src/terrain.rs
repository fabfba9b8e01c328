//! The terrain of the interactive viewer: 240 by 180 cells.

use vstd::prelude::*;

use crate::grid::TerrainGrid;

verus! {

/// Columns of the viewer's terrain.
pub const WIDTH: usize = 240;

/// Rows of the viewer's terrain.
pub const HEIGHT: usize = 180;

/// The viewer's terrain.
pub type Terrain = TerrainGrid<WIDTH, HEIGHT>;

} // verus!
