//! Verified grid substrate for a staggered-grid (MAC) fluid simulation.
//!
//! The library provides the dense two-dimensional container that holds every
//! simulation field (velocities, pressure, smoke, openness mask); the
//! mask-editing operations: full resets, rectangle fills and filled disk
//! rasterization, and the boundary-aware query that extends a mask one cell
//! past its stored extent; and the simulation state itself — its staggered
//! construction with inflow columns, obstacle and smoke inlet band, and its
//! full resets — generic over the cell type, so that a numeric front end
//! only supplies the scalar and the solver passes.

pub mod grid;
pub mod raster;
pub mod state;
