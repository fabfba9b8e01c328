//! The cells that erosion around a position takes sediment from.

use vstd::prelude::*;

use crate::grid::TerrainGrid;

verus! {

/// First row (or column) of the window around `origin`: `radius` before it,
/// but not before 0.
pub open spec fn window_start(origin: int, radius: int) -> int {
    if radius > origin {
        0
    } else {
        origin - radius
    }
}

/// End of the window around `origin`, exclusive: `radius` after it, but not
/// past `limit`.
pub open spec fn window_end(origin: int, radius: int, limit: int) -> int {
    if limit < origin + radius {
        limit
    } else {
        origin + radius
    }
}

/// Cell `a` comes before cell `b` in row-major order.
pub open spec fn row_major_before(a: (usize, usize), b: (usize, usize)) -> bool {
    a.1 < b.1 || (a.1 == b.1 && a.0 < b.0)
}

impl<const W: usize, const H: usize> TerrainGrid<W, H> {
    /// Cell `(x, y)` is eroded around `(ox, oy)`: it lies in the window of
    /// `radius` around the origin, clipped to the grid, and its squared
    /// distance to the origin is below the square of `radius`.
    pub open spec fn eroded(ox: int, oy: int, radius: int, x: int, y: int) -> bool {
        &&& window_start(oy, radius) <= y < window_end(oy, radius, H as int)
        &&& window_start(ox, radius) <= x < window_end(ox, radius, W as int)
        &&& (oy - y) * (oy - y) + (ox - x) * (ox - x) < radius * radius
    }

    /// The cells that erosion of `radius` around cell `(origin_x, origin_y)`
    /// takes sediment from, each once, in row-major order.
    pub fn erosion_cells(origin_x: usize, origin_y: usize, radius: usize) -> (cells: Vec<
        (usize, usize),
    >)
        requires
            origin_x + radius <= usize::MAX,
            origin_y + radius <= usize::MAX,
            (2 * radius + 1) * (2 * radius + 1) <= usize::MAX,
        ensures
            forall|i: int|
                0 <= i < cells@.len() ==> Self::eroded(
                    origin_x as int,
                    origin_y as int,
                    radius as int,
                    #[trigger] cells@[i].0 as int,
                    cells@[i].1 as int,
                ),
            forall|x: usize, y: usize|
                Self::eroded(origin_x as int, origin_y as int, radius as int, x as int, y as int)
                    ==> #[trigger] cells@.contains((x, y)),
            forall|i: int, j: int|
                0 <= i < j < cells@.len() ==> row_major_before(
                    #[trigger] cells@[i],
                    #[trigger] cells@[j],
                ),
            cells@.len() <= 4 * radius * radius,
            forall|i: int|
                0 <= i < cells@.len() ==> {
                    let (x, y) = #[trigger] cells@[i];
                    &&& x < W
                    &&& y < H
                    &&& x < origin_x + radius
                    &&& y < origin_y + radius
                    &&& (x - origin_x) * (x - origin_x) + (y - origin_y) * (y - origin_y) < radius
                        * radius
                },
            forall|x: usize, y: usize|
                x < W && y < H && x < origin_x + radius && y < origin_y + radius && (x - origin_x)
                    * (x - origin_x) + (y - origin_y) * (y - origin_y) < radius * radius
                    ==> #[trigger] cells@.contains((x, y)),
            forall|i: int, j: int|
                0 <= i < j < cells@.len() ==> {
                    ||| (#[trigger] cells@[i]).1 < (#[trigger] cells@[j]).1
                    ||| cells@[i].1 == cells@[j].1 && cells@[i].0 < cells@[j].0
                },
    {
        let ghost (ox, oy, r) = (origin_x as int, origin_y as int, radius as int);
        let y_start: usize = if radius > origin_y {
            0
        } else {
            origin_y - radius
        };
        let x_start: usize = if radius > origin_x {
            0
        } else {
            origin_x - radius
        };
        let y_end: usize = if H < origin_y + radius {
            H
        } else {
            origin_y + radius
        };
        let x_end: usize = if W < origin_x + radius {
            W
        } else {
            origin_x + radius
        };
        assert(radius * radius + radius * radius <= usize::MAX) by (nonlinear_arith)
            requires
                (2 * radius + 1) * (2 * radius + 1) <= usize::MAX,
        ;
        let r2: usize = radius * radius;
        let mut cells: Vec<(usize, usize)> = Vec::new();
        let ghost xw: int = if x_start <= x_end {
            x_end - x_start
        } else {
            0
        };
        let mut y: usize = y_start;
        while y < y_end
            invariant
                xw == (if x_start <= x_end {
                    x_end - x_start
                } else {
                    0int
                }),
                cells@.len() <= (y - y_start) * xw,
                y_start == window_start(oy, r),
                y_end == window_end(oy, r, H as int),
                x_start == window_start(ox, r),
                x_end == window_end(ox, r, W as int),
                ox == origin_x,
                oy == origin_y,
                r == radius,
                r2 == r * r,
                r2 + r2 <= usize::MAX,
                y_start <= y,
                y_start <= y_end ==> y <= y_end,
                y_start > y_end ==> y == y_start,
                forall|i: int|
                    0 <= i < cells@.len() ==> Self::eroded(
                        ox,
                        oy,
                        r,
                        #[trigger] cells@[i].0 as int,
                        cells@[i].1 as int,
                    ),
                forall|i: int| 0 <= i < cells@.len() ==> #[trigger] cells@[i].1 < y,
                forall|cx: usize, cy: usize|
                    cy < y && Self::eroded(ox, oy, r, cx as int, cy as int)
                        ==> #[trigger] cells@.contains((cx, cy)),
                forall|i: int, j: int|
                    0 <= i < j < cells@.len() ==> row_major_before(
                        #[trigger] cells@[i],
                        #[trigger] cells@[j],
                    ),
            decreases y_end - y,
        {
            let dy: usize = if origin_y > y {
                origin_y - y
            } else {
                y - origin_y
            };
            assert(dy <= radius);
            assert(dy * dy <= r2) by (nonlinear_arith)
                requires
                    dy <= radius,
                    r2 == radius * radius,
            ;
            assert(dy * dy == (oy - y) * (oy - y)) by (nonlinear_arith)
                requires
                    dy == oy - y || dy == y - oy,
            ;
            let mut x: usize = x_start;
            while x < x_end
                invariant
                    xw == (if x_start <= x_end {
                        x_end - x_start
                    } else {
                        0int
                    }),
                    cells@.len() <= (y - y_start) * xw + (x - x_start),
                    y_start == window_start(oy, r),
                    y_end == window_end(oy, r, H as int),
                    x_start == window_start(ox, r),
                    x_end == window_end(ox, r, W as int),
                    ox == origin_x,
                    oy == origin_y,
                    r == radius,
                    r2 == r * r,
                    r2 + r2 <= usize::MAX,
                    y_start <= y < y_end,
                    dy * dy <= r2,
                    dy * dy == (oy - y) * (oy - y),
                    x_start <= x,
                    x_start <= x_end ==> x <= x_end,
                    x_start > x_end ==> x == x_start,
                    forall|i: int|
                        0 <= i < cells@.len() ==> Self::eroded(
                            ox,
                            oy,
                            r,
                            #[trigger] cells@[i].0 as int,
                            cells@[i].1 as int,
                        ),
                    forall|i: int|
                        0 <= i < cells@.len() ==> row_major_before(#[trigger] cells@[i], (x, y)),
                    forall|cx: usize, cy: usize|
                        (cy < y || (cy == y && cx < x)) && Self::eroded(
                            ox,
                            oy,
                            r,
                            cx as int,
                            cy as int,
                        ) ==> #[trigger] cells@.contains((cx, cy)),
                    forall|i: int, j: int|
                        0 <= i < j < cells@.len() ==> row_major_before(
                            #[trigger] cells@[i],
                            #[trigger] cells@[j],
                        ),
                decreases x_end - x,
            {
                let dx: usize = if origin_x > x {
                    origin_x - x
                } else {
                    x - origin_x
                };
                assert(dx * dx <= r2) by (nonlinear_arith)
                    requires
                        dx <= radius,
                        r2 == radius * radius,
                ;
                assert(dx * dx == (ox - x) * (ox - x)) by (nonlinear_arith)
                    requires
                        dx == ox - x || dx == x - ox,
                ;
                let ghost prev = cells@;
                if dy * dy + dx * dx < r2 {
                    cells.push((x, y));
                    assert forall|cx: usize, cy: usize|
                        (cy < y || (cy == y && cx < x)) && Self::eroded(
                            ox,
                            oy,
                            r,
                            cx as int,
                            cy as int,
                        ) implies #[trigger] cells@.contains((cx, cy)) by {
                        assert(prev.contains((cx, cy)));
                        let k = choose|k: int| 0 <= k < prev.len() && prev[k] == (cx, cy);
                        assert(cells@[k] == (cx, cy));
                    }
                    assert(cells@[cells@.len() - 1] == (x, y));
                }
                x += 1;
            }
            assert(cells@.len() <= (y + 1 - y_start) * xw) by (nonlinear_arith)
                requires
                    cells@.len() <= (y - y_start) * xw + xw,
            ;
            y += 1;
        }
        assert(y - y_start <= 2 * radius);
        assert(cells@.len() <= 4 * radius * radius) by (nonlinear_arith)
            requires
                cells@.len() <= (y - y_start) * xw,
                y_start <= y,
                y - y_start <= 2 * radius,
                0 <= xw <= 2 * radius,
        ;
        assert forall|i: int| 0 <= i < cells@.len() implies {
            let (x, y) = #[trigger] cells@[i];
            &&& x < W
            &&& y < H
            &&& x < origin_x + radius
            &&& y < origin_y + radius
            &&& (x - origin_x) * (x - origin_x) + (y - origin_y) * (y - origin_y) < radius * radius
        } by {
            let (x, y) = cells@[i];
            Self::lemma_eroded_exactly(ox, oy, r, x as int, y as int);
        }
        assert forall|x: usize, y: usize|
            x < W && y < H && x < origin_x + radius && y < origin_y + radius && (x - origin_x) * (x
                - origin_x) + (y - origin_y) * (y - origin_y) < radius * radius implies #[trigger] cells@.contains(
            (x, y),
        ) by {
            Self::lemma_eroded_exactly(ox, oy, r, x as int, y as int);
        }
        cells
    }

    /// A cell is eroded around `(ox, oy)` exactly when it lies on the grid,
    /// before column `ox + radius` and row `oy + radius`, and its squared
    /// distance to the origin is below the square of `radius`; in particular
    /// every such cell of the rows and columns before the origin counts, down
    /// to row and column 0.
    pub proof fn lemma_eroded_exactly(ox: int, oy: int, radius: int, x: int, y: int)
        requires
            0 <= ox,
            0 <= oy,
            0 <= radius,
            0 <= x,
            0 <= y,
        ensures
            Self::eroded(ox, oy, radius, x, y) <==> {
                &&& x < W
                &&& y < H
                &&& x < ox + radius
                &&& y < oy + radius
                &&& (x - ox) * (x - ox) + (y - oy) * (y - oy) < radius * radius
            },
    {
        assert((oy - y) * (oy - y) == (y - oy) * (y - oy)) by (nonlinear_arith);
        assert((ox - x) * (ox - x) == (x - ox) * (x - ox)) by (nonlinear_arith);
        if (x - ox) * (x - ox) + (y - oy) * (y - oy) < radius * radius {
            assert(oy - y < radius && ox - x < radius) by (nonlinear_arith)
                requires
                    (x - ox) * (x - ox) + (y - oy) * (y - oy) < radius * radius,
                    0 <= radius,
            ;
        }
    }

    /// With a positive radius, erosion around a cell of the grid takes
    /// sediment from that cell itself.
    pub proof fn lemma_origin_eroded(ox: int, oy: int, radius: int)
        requires
            0 <= ox < W,
            0 <= oy < H,
            radius > 0,
        ensures
            Self::eroded(ox, oy, radius, ox, oy),
    {
        Self::lemma_eroded_exactly(ox, oy, radius, ox, oy);
        assert(radius * radius > 0) by (nonlinear_arith)
            requires
                radius > 0,
        ;
    }
}

} // verus!
