# ymir

Hydraulic erosion on a noise-generated terrain, shown in a pixel window.

`src/` is the verified library: the trace of cells that drops visit, how the
terrain and its trace are painted into an RGBA frame, the neighbour and
interpolation stencils, and the choice of cells that erosion takes sediment
from. Heights, gradients and drop physics are floating point and live in
`app/`, together with the window, the noise generator and the random drops.

- `src/grid.rs`: `TerrainGrid<W, H>`, the trace layer, and painting frames.
- `src/frame.rs`: the frame model and its laws.
- `src/stencil.rs`: neighbours, interpolation corners, the far edge.
- `src/erosion.rs`: the cells eroded around a position.
- `src/terrain.rs`, `src/sim/terrain.rs`: the viewer's and the simulation's
  terrain sizes.
