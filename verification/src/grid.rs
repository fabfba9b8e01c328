//! The trace layer of a terrain of `W` columns and `H` rows.

use vstd::prelude::*;

use crate::frame::{drawn_trace, lemma_blank_trace_draws_nothing, lemma_pixel_of_drawn_trace, lemma_pixel_of_height_map, shaded};

verus! {

/// The cells of a `W` by `H` terrain that a drop has visited, row by row.
pub struct TerrainGrid<const W: usize, const H: usize> {
    trace: Vec<bool>,
}

impl<const W: usize, const H: usize> View for TerrainGrid<W, H> {
    type V = Seq<bool>;

    /// Cell `(x, y)` is traced when `self@[y * W + x]` holds.
    closed spec fn view(&self) -> Seq<bool> {
        self.trace@
    }
}

/// Every cell index of a `w` by `h` grid lies below `w * h`.
pub proof fn lemma_cell_index_bounds(w: int, h: int, x: int, y: int)
    requires
        0 <= x < w,
        0 <= y < h,
    ensures
        0 <= y * w + x < w * h,
{
    assert(0 <= y * w + x < w * h) by (nonlinear_arith)
        requires
            0 <= x < w,
            0 <= y < h,
    ;
}

impl<const W: usize, const H: usize> TerrainGrid<W, H> {
    /// A frame of one RGBA pixel per cell can be addressed with `usize`.
    pub open spec fn fits() -> bool {
        W * H * 4 <= usize::MAX
    }

    /// Cell `(x, y)` lies on the grid.
    pub open spec fn in_grid(x: int, y: int) -> bool {
        0 <= x < W && 0 <= y < H
    }

    /// Position of cell `(x, y)` in row-major order.
    pub open spec fn cell_index(x: int, y: int) -> int {
        y * W + x
    }

    /// A trace layer in which no cell is traced.
    pub open spec fn blank() -> Seq<bool> {
        Seq::new((W * H) as nat, |i: int| false)
    }

    /// The trace holds one flag per cell and its frame can be addressed.
    pub open spec fn wf(&self) -> bool {
        &&& Self::fits()
        &&& self@.len() == W * H
    }

    fn blank_trace() -> (trace: Vec<bool>)
        requires
            Self::fits(),
        ensures
            trace@ == Self::blank(),
    {
        let n: usize = W * H;
        let mut trace: Vec<bool> = Vec::new();
        while trace.len() < n
            invariant
                n == W * H,
                trace@.len() <= n,
                forall|i: int| 0 <= i < trace@.len() ==> trace@[i] == false,
            decreases n - trace@.len(),
        {
            trace.push(false);
        }
        assert(trace@ =~= Self::blank());
        trace
    }

    /// A terrain with no traced cell.
    pub fn new() -> (grid: Self)
        requires
            Self::fits(),
        ensures
            grid.wf(),
            grid@ == Self::blank(),
            grid@.len() == W * H,
            forall|i: int| 0 <= i < W * H ==> !#[trigger] grid@[i],
    {
        TerrainGrid { trace: Self::blank_trace() }
    }

    /// Forgets every traced cell.
    pub fn clear_trace(&mut self)
        requires
            old(self).wf(),
        ensures
            final(self).wf(),
            final(self)@ == Self::blank(),
            final(self)@.len() == W * H,
            forall|i: int| 0 <= i < W * H ==> !#[trigger] final(self)@[i],
    {
        self.trace = Self::blank_trace();
    }

    /// Marks cell `(x, y)` as traced and leaves every other cell as it was.
    pub fn set_trace(&mut self, x: usize, y: usize)
        requires
            old(self).wf(),
            x < W,
            y < H,
        ensures
            final(self).wf(),
            final(self)@ == old(self)@.update(Self::cell_index(x as int, y as int), true),
            final(self)@ == old(self)@.update(y * W + x, true),
            final(self)@.len() == old(self)@.len(),
            final(self)@[y * W + x],
            forall|i: int|
                0 <= i < final(self)@.len() && i != y * W + x ==> #[trigger] final(self)@[i]
                    == old(self)@[i],
    {
        proof {
            lemma_cell_index_bounds(W as int, H as int, x as int, y as int);
        }
        let i: usize = y * W + x;
        self.trace.set(i, true);
    }

    /// Paints the pixel of every traced cell opaque blue and leaves every
    /// other byte of `frame` as it was.
    pub fn draw_trace(&self, frame: &mut [u8])
        requires
            self.wf(),
            old(frame)@.len() >= 4 * (W * H),
        ensures
            final(frame)@ == drawn_trace(self@, old(frame)@),
            final(frame)@.len() == old(frame)@.len(),
            forall|i: int, k: int|
                0 <= i < W * H && 0 <= k < 4 && #[trigger] self@[i] ==> #[trigger] final(frame)@[4 * i
                    + k] == (if k < 2 {
                    0u8
                } else {
                    255u8
                }),
            forall|i: int, k: int|
                0 <= i < W * H && 0 <= k < 4 && !#[trigger] self@[i] ==> #[trigger] final(frame)@[4
                    * i + k] == old(frame)@[4 * i + k],
            forall|j: int|
                4 * (W * H) <= j < old(frame)@.len() ==> #[trigger] final(frame)@[j] == old(
                    frame,
                )@[j],
    {
        let ghost before = frame@;
        let n: usize = self.trace.len();
        let mut i: usize = 0;
        while i < n
            invariant
                n == self@.len(),
                4 * n <= before.len(),
                4 * n <= usize::MAX,
                i <= n,
                frame@.len() == before.len(),
                forall|j: int|
                    0 <= j < frame@.len() ==> #[trigger] frame@[j] == if j < 4 * i {
                        drawn_trace(self@, before)[j]
                    } else {
                        before[j]
                    },
            decreases n - i,
        {
            if self.trace[i] {
                let at: usize = 4 * i;
                frame[at] = 0;
                frame[at + 1] = 0;
                frame[at + 2] = 255;
                frame[at + 3] = 255;
            }
            i += 1;
        }
        assert(frame@ =~= drawn_trace(self@, before));
        proof {
            assert forall|i: int, k: int| 0 <= i < W * H && 0 <= k < 4 implies #[trigger] frame@[4
                * i + k] == (if self@[i] {
                if k < 2 {
                    0u8
                } else {
                    255u8
                }
            } else {
                before[4 * i + k]
            }) by {
                lemma_pixel_of_drawn_trace(self@, before, i, k);
            }
        }
    }

    /// Paints the pixel of cell `i` the opaque grey of `levels[i]`, for every
    /// cell, and leaves the bytes of `frame` past the cells as they were.
    pub fn height_map(levels: &[u8], frame: &mut [u8])
        requires
            Self::fits(),
            levels@.len() == W * H,
            old(frame)@.len() >= 4 * (W * H),
        ensures
            final(frame)@ == shaded(levels@, old(frame)@),
            final(frame)@.len() == old(frame)@.len(),
            forall|i: int, k: int|
                0 <= i < W * H && 0 <= k < 4 ==> #[trigger] final(frame)@[4 * i + k] == if k == 3 {
                    255u8
                } else {
                    levels@[i]
                },
            forall|j: int|
                4 * (W * H) <= j < old(frame)@.len() ==> #[trigger] final(frame)@[j] == old(
                    frame,
                )@[j],
    {
        let ghost before = frame@;
        let n: usize = levels.len();
        let mut i: usize = 0;
        while i < n
            invariant
                n == levels@.len(),
                4 * n <= before.len(),
                4 * n <= usize::MAX,
                i <= n,
                frame@.len() == before.len(),
                forall|j: int|
                    0 <= j < frame@.len() ==> #[trigger] frame@[j] == if j < 4 * i {
                        shaded(levels@, before)[j]
                    } else {
                        before[j]
                    },
            decreases n - i,
        {
            let level: u8 = levels[i];
            let at: usize = 4 * i;
            frame[at] = level;
            frame[at + 1] = level;
            frame[at + 2] = level;
            frame[at + 3] = 255;
            i += 1;
        }
        assert(frame@ =~= shaded(levels@, before));
        proof {
            assert forall|i: int, k: int| 0 <= i < W * H && 0 <= k < 4 implies #[trigger] frame@[4
                * i + k] == if k == 3 {
                255u8
            } else {
                levels@[i]
            } by {
                lemma_pixel_of_height_map(levels@, before, i, k);
            }
        }
    }

    /// Distinct cells of the grid have distinct row-major positions.
    pub proof fn lemma_cell_index_injective(x1: int, y1: int, x2: int, y2: int)
        requires
            Self::in_grid(x1, y1),
            Self::in_grid(x2, y2),
            Self::cell_index(x1, y1) == Self::cell_index(x2, y2),
        ensures
            x1 == x2 && y1 == y2,
    {
        let w = W as int;
        assert(y1 == y2) by (nonlinear_arith)
            requires
                0 <= x1 < w,
                0 <= x2 < w,
                y1 * w + x1 == y2 * w + x2,
        ;
    }

    /// After `set_trace(x, y)` cell `(a, b)` is traced exactly when it is
    /// `(x, y)` or was traced before.
    pub proof fn lemma_set_trace_marks_one_cell(cells: Seq<bool>, x: int, y: int, a: int, b: int)
        requires
            cells.len() == W * H,
            Self::in_grid(x, y),
            Self::in_grid(a, b),
        ensures
            cells.update(Self::cell_index(x, y), true)[Self::cell_index(a, b)] == ((a == x && b
                == y) || cells[Self::cell_index(a, b)]),
    {
        lemma_cell_index_bounds(W as int, H as int, x, y);
        lemma_cell_index_bounds(W as int, H as int, a, b);
        if Self::cell_index(x, y) == Self::cell_index(a, b) {
            Self::lemma_cell_index_injective(x, y, a, b);
        }
    }

    /// Tracing the same cell twice leaves the trace that tracing it once
    /// leaves.
    pub proof fn lemma_set_trace_idempotent(cells: Seq<bool>, x: int, y: int)
        requires
            cells.len() == W * H,
            Self::in_grid(x, y),
        ensures
            cells.update(Self::cell_index(x, y), true).update(Self::cell_index(x, y), true)
                == cells.update(Self::cell_index(x, y), true),
    {
        let i = Self::cell_index(x, y);
        lemma_cell_index_bounds(W as int, H as int, x, y);
        assert(cells.update(i, true).update(i, true) =~= cells.update(i, true));
    }

    /// The trace after two cells have been traced does not depend on the
    /// order in which they were traced.
    pub proof fn lemma_set_trace_commutes(cells: Seq<bool>, x1: int, y1: int, x2: int, y2: int)
        requires
            cells.len() == W * H,
            Self::in_grid(x1, y1),
            Self::in_grid(x2, y2),
        ensures
            cells.update(Self::cell_index(x1, y1), true).update(Self::cell_index(x2, y2), true)
                == cells.update(Self::cell_index(x2, y2), true).update(
                Self::cell_index(x1, y1),
                true,
            ),
    {
        let i1 = Self::cell_index(x1, y1);
        let i2 = Self::cell_index(x2, y2);
        lemma_cell_index_bounds(W as int, H as int, x1, y1);
        lemma_cell_index_bounds(W as int, H as int, x2, y2);
        assert(cells.update(i1, true).update(i2, true) =~= cells.update(i2, true).update(
            i1,
            true,
        ));
    }

    /// Once the trace has been cleared, drawing it leaves the frame as it was.
    pub proof fn lemma_cleared_trace_draws_nothing(frame: Seq<u8>)
        ensures
            drawn_trace(Self::blank(), frame) == frame,
    {
        lemma_blank_trace_draws_nothing((W * H) as nat, frame);
    }

    /// Once cell `(x, y)` has been traced, drawing the trace paints bytes
    /// `4 * (y * W + x)` to `4 * (y * W + x) + 3` of any frame opaque blue.
    pub proof fn lemma_traced_cell_drawn_blue(cells: Seq<bool>, frame: Seq<u8>, x: int, y: int)
        requires
            cells.len() == W * H,
            frame.len() >= 4 * (W * H),
            0 <= x < W,
            0 <= y < H,
        ensures
            drawn_trace(cells.update(y * W + x, true), frame).subrange(
                4 * (y * W + x),
                4 * (y * W + x) + 4,
            ) == seq![0u8, 0u8, 255u8, 255u8],
    {
        lemma_cell_index_bounds(W as int, H as int, x, y);
        let c = cells.update(y * W + x, true);
        let i = y * W + x;
        lemma_pixel_of_drawn_trace(c, frame, i, 0);
        lemma_pixel_of_drawn_trace(c, frame, i, 1);
        lemma_pixel_of_drawn_trace(c, frame, i, 2);
        lemma_pixel_of_drawn_trace(c, frame, i, 3);
        assert(drawn_trace(c, frame).subrange(4 * i, 4 * i + 4) =~= seq![0u8, 0u8, 255u8, 255u8]);
    }
}

} // verus!
