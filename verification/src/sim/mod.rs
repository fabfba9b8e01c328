//! The erosion simulation's terrain.

pub mod terrain;
