//! The cells that the simulation reads around a position: the eight
//! neighbours of a cell and the four corners of the square that a position
//! falls in.

use vstd::prelude::*;

use crate::grid::TerrainGrid;

verus! {

/// The eight neighbours of cell `(x, y)`: the row above from left to right,
/// the left and the right cell, then the row below from left to right.
pub open spec fn neighbor_cells(x: usize, y: usize) -> Seq<(usize, usize)> {
    let (l, r, u, d) = ((x - 1) as usize, (x + 1) as usize, (y - 1) as usize, (y + 1) as usize);
    seq![(l, u), (x, u), (r, u), (l, y), (r, y), (l, d), (x, d), (r, d)]
}

/// The four corners of the unit square whose top-left corner is cell
/// `(x, y)`, in the order north-east, south-east, north-west, south-west.
pub open spec fn corner_cells(x: usize, y: usize) -> Seq<(usize, usize)> {
    let (r, d) = ((x + 1) as usize, (y + 1) as usize);
    seq![(r, y), (r, d), (x, y), (x, d)]
}

impl<const W: usize, const H: usize> TerrainGrid<W, H> {
    /// The neighbours of cell `(x, y)`, which must not lie on the border.
    pub fn neighbors(x: usize, y: usize) -> (cells: [(usize, usize); 8])
        requires
            1 <= x,
            x + 1 < W,
            1 <= y,
            y + 1 < H,
        ensures
            cells@ == neighbor_cells(x, y),
            cells@[0].0 == x - 1 && cells@[0].1 == y - 1,
            cells@[1].0 == x && cells@[1].1 == y - 1,
            cells@[2].0 == x + 1 && cells@[2].1 == y - 1,
            cells@[3].0 == x - 1 && cells@[3].1 == y,
            cells@[4].0 == x + 1 && cells@[4].1 == y,
            cells@[5].0 == x - 1 && cells@[5].1 == y + 1,
            cells@[6].0 == x && cells@[6].1 == y + 1,
            cells@[7].0 == x + 1 && cells@[7].1 == y + 1,
    {
        let cells = [
            (x - 1, y - 1),
            (x, y - 1),
            (x + 1, y - 1),
            (x - 1, y),
            (x + 1, y),
            (x - 1, y + 1),
            (x, y + 1),
            (x + 1, y + 1),
        ];
        assert(cells@ =~= neighbor_cells(x, y));
        cells
    }

    /// The corners of the square that bilinear interpolation reads and
    /// writes for a position whose integer part is `(x, y)`.
    pub fn corners(x: usize, y: usize) -> (cells: [(usize, usize); 4])
        requires
            x + 1 < W,
            y + 1 < H,
        ensures
            cells@ == corner_cells(x, y),
            cells@[0].0 == x + 1 && cells@[0].1 == y,
            cells@[1].0 == x + 1 && cells@[1].1 == y + 1,
            cells@[2].0 == x && cells@[2].1 == y,
            cells@[3].0 == x && cells@[3].1 == y + 1,
    {
        let cells = [(x + 1, y), (x + 1, y + 1), (x, y), (x, y + 1)];
        assert(cells@ =~= corner_cells(x, y));
        cells
    }

    /// Whether cell `(x, y)` lies in the last column or the last row, where
    /// the square to its south-east leaves the grid.
    pub fn on_far_edge(x: usize, y: usize) -> (edge: bool)
        ensures
            edge == (x + 1 == W || y + 1 == H),
    {
        (x < W && x + 1 == W) || (y < H && y + 1 == H)
    }

    /// The neighbours of an inner cell are eight distinct cells of the grid,
    /// each a step of at most one column and one row away from it, and none of
    /// them the cell itself.
    pub proof fn lemma_neighbors_surround(x: usize, y: usize)
        requires
            1 <= x,
            x + 1 < W,
            1 <= y,
            y + 1 < H,
        ensures
            neighbor_cells(x, y).len() == 8,
            neighbor_cells(x, y)[0].0 == x - 1 && neighbor_cells(x, y)[0].1 == y - 1,
            neighbor_cells(x, y)[1].0 == x && neighbor_cells(x, y)[1].1 == y - 1,
            neighbor_cells(x, y)[2].0 == x + 1 && neighbor_cells(x, y)[2].1 == y - 1,
            neighbor_cells(x, y)[3].0 == x - 1 && neighbor_cells(x, y)[3].1 == y,
            neighbor_cells(x, y)[4].0 == x + 1 && neighbor_cells(x, y)[4].1 == y,
            neighbor_cells(x, y)[5].0 == x - 1 && neighbor_cells(x, y)[5].1 == y + 1,
            neighbor_cells(x, y)[6].0 == x && neighbor_cells(x, y)[6].1 == y + 1,
            neighbor_cells(x, y)[7].0 == x + 1 && neighbor_cells(x, y)[7].1 == y + 1,
            forall|i: int|
                0 <= i < 8 ==> {
                    let c = #[trigger] neighbor_cells(x, y)[i];
                    &&& Self::in_grid(c.0 as int, c.1 as int)
                    &&& x - 1 <= c.0 <= x + 1
                    &&& y - 1 <= c.1 <= y + 1
                    &&& c != (x, y)
                },
            forall|i: int, j: int|
                0 <= i < j < 8 ==> #[trigger] neighbor_cells(x, y)[i] != #[trigger] neighbor_cells(
                    x,
                    y,
                )[j],
            forall|a: usize, b: usize|
                x - 1 <= a <= x + 1 && y - 1 <= b <= y + 1 && (a, b) != (x, y)
                    ==> #[trigger] neighbor_cells(x, y).contains((a, b)),
    {
        let n = neighbor_cells(x, y);
        assert forall|a: usize, b: usize|
            x - 1 <= a <= x + 1 && y - 1 <= b <= y + 1 && (a, b) != (x, y) implies #[trigger] n.contains(
            (a, b),
        ) by {
            let k: int = if b + 1 == y {
                a - x + 1
            } else if b == y {
                if a + 1 == x {
                    3
                } else {
                    4
                }
            } else {
                a - x + 6
            };
            assert(n[k] == (a, b));
        }
    }

    /// The corners of a square whose top-left cell has a cell to its
    /// south-east are the four distinct cells of that square, all on the grid.
    pub proof fn lemma_corners_form_square(x: usize, y: usize)
        requires
            x + 1 < W,
            y + 1 < H,
        ensures
            corner_cells(x, y).len() == 4,
            corner_cells(x, y)[0].0 == x + 1 && corner_cells(x, y)[0].1 == y,
            corner_cells(x, y)[1].0 == x + 1 && corner_cells(x, y)[1].1 == y + 1,
            corner_cells(x, y)[2].0 == x && corner_cells(x, y)[2].1 == y,
            corner_cells(x, y)[3].0 == x && corner_cells(x, y)[3].1 == y + 1,
            forall|i: int|
                0 <= i < 4 ==> {
                    let c = #[trigger] corner_cells(x, y)[i];
                    &&& Self::in_grid(c.0 as int, c.1 as int)
                    &&& x <= c.0 <= x + 1
                    &&& y <= c.1 <= y + 1
                },
            forall|i: int, j: int|
                0 <= i < j < 4 ==> #[trigger] corner_cells(x, y)[i] != #[trigger] corner_cells(
                    x,
                    y,
                )[j],
    {
    }
}

} // verus!
