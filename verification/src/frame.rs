//! The RGBA pixel frame: one pixel of four bytes per terrain cell, cells in
//! row-major order, followed by whatever else the frame holds.

use vstd::prelude::*;

verus! {

/// Bytes of one RGBA pixel.
pub const BYTES_PER_PIXEL: usize = 4;

/// Byte `k` of the colour that marks a traced cell: opaque blue.
pub open spec fn trace_rgba(k: int) -> u8 {
    if k == 2 || k == 3 {
        255
    } else {
        0
    }
}

/// `frame` after every traced cell of `cells` has been painted opaque blue;
/// the pixels of untraced cells and the bytes past the cells are unchanged.
pub open spec fn drawn_trace(cells: Seq<bool>, frame: Seq<u8>) -> Seq<u8> {
    Seq::new(
        frame.len(),
        |j: int|
            if j < 4 * cells.len() && cells[j / 4] {
                trace_rgba(j % 4)
            } else {
                frame[j]
            },
    )
}

/// `frame` after cell `i` has been painted the opaque grey of level
/// `levels[i]`, for every cell; the bytes past the cells are unchanged.
pub open spec fn shaded(levels: Seq<u8>, frame: Seq<u8>) -> Seq<u8> {
    Seq::new(
        frame.len(),
        |j: int|
            if j < 4 * levels.len() {
                if j % 4 == 3 {
                    255u8
                } else {
                    levels[j / 4]
                }
            } else {
                frame[j]
            },
    )
}


/// Drawing a trace in which no cell is traced leaves the frame as it was.
pub proof fn lemma_blank_trace_draws_nothing(n: nat, frame: Seq<u8>)
    ensures
        drawn_trace(Seq::new(n, |i: int| false), frame) == frame,
{
    assert(drawn_trace(Seq::new(n, |i: int| false), frame) =~= frame);
}

/// Drawing the same trace twice gives the frame that drawing it once gives.
pub proof fn lemma_draw_trace_idempotent(cells: Seq<bool>, frame: Seq<u8>)
    ensures
        drawn_trace(cells, drawn_trace(cells, frame)) == drawn_trace(cells, frame),
{
    assert(drawn_trace(cells, drawn_trace(cells, frame)) =~= drawn_trace(cells, frame));
}

/// The height map paints every cell's pixel whatever the frame held before:
/// two frames of one length agree on all cell pixels once it has run.
pub proof fn lemma_height_map_overwrites(levels: Seq<u8>, a: Seq<u8>, b: Seq<u8>)
    requires
        a.len() == b.len(),
        4 * levels.len() <= a.len(),
    ensures
        shaded(levels, a).subrange(0, 4 * levels.len() as int) == shaded(levels, b).subrange(
            0,
            4 * levels.len() as int,
        ),
{
    assert(shaded(levels, a).subrange(0, 4 * levels.len() as int) =~= shaded(levels, b).subrange(
        0,
        4 * levels.len() as int,
    ));
}

/// A frame painted with the height map and then with the trace shows, for
/// every cell, opaque blue where the cell is traced and the opaque grey of its
/// level elsewhere; the bytes past the cells keep what the frame held.
pub proof fn lemma_trace_over_height_map(
    cells: Seq<bool>,
    levels: Seq<u8>,
    frame: Seq<u8>,
    i: int,
    k: int,
)
    requires
        cells.len() == levels.len(),
        4 * levels.len() <= frame.len(),
        0 <= i < cells.len(),
        0 <= k < 4,
    ensures
        drawn_trace(cells, shaded(levels, frame))[4 * i + k] == if cells[i] {
            if k < 2 {
                0u8
            } else {
                255u8
            }
        } else if k == 3 {
            255u8
        } else {
            levels[i]
        },
        forall|j: int|
            4 * cells.len() <= j < frame.len() ==> #[trigger] drawn_trace(
                cells,
                shaded(levels, frame),
            )[j] == frame[j],
{
    let j = 4 * i + k;
    assert(j / 4 == i && j % 4 == k);
}


/// Byte `k` of the pixel of cell `i` after drawing the trace, over any frame
/// long enough for the cells: `[0, 0, 255, 255]` where the cell is traced,
/// whatever the frame held there, and the frame's own byte elsewhere.
pub proof fn lemma_pixel_of_drawn_trace(cells: Seq<bool>, frame: Seq<u8>, i: int, k: int)
    requires
        4 * cells.len() <= frame.len(),
        0 <= i < cells.len(),
        0 <= k < 4,
    ensures
        drawn_trace(cells, frame)[4 * i + k] == if cells[i] {
            if k < 2 {
                0u8
            } else {
                255u8
            }
        } else {
            frame[4 * i + k]
        },
{
    let j = 4 * i + k;
    assert(j / 4 == i && j % 4 == k);
}

/// Byte `k` of the pixel of cell `i` after painting the height map, over any
/// frame long enough for the cells: the level of the cell in the three colour
/// bytes and 255 in the alpha byte.
pub proof fn lemma_pixel_of_height_map(levels: Seq<u8>, frame: Seq<u8>, i: int, k: int)
    requires
        4 * levels.len() <= frame.len(),
        0 <= i < levels.len(),
        0 <= k < 4,
    ensures
        shaded(levels, frame)[4 * i + k] == if k == 3 {
            255u8
        } else {
            levels[i]
        },
{
    let j = 4 * i + k;
    assert(j / 4 == i && j % 4 == k);
}

} // verus!
