//! Integer core of a hydraulic-erosion terrain: the trace layer of visited
//! cells, how terrain and trace are laid out in an RGBA pixel frame, and which
//! cells the stencils of the simulation read and write.

pub mod frame;
pub mod grid;
pub mod stencil;
pub mod erosion;
pub mod sim;
pub mod terrain;
