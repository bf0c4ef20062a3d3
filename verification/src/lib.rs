//! Grid occupancy, piece placement and cube routing for a conveyor-belt puzzle.
//!
//! Pieces with a multi-cell footprint are dragged and turned on a rectangular
//! grid; coloured cubes travel along the pieces from inputs to outputs. Every
//! function in this crate carries a contract that Verus proves.

pub mod block;
pub mod cubes;
pub mod geometry;
pub mod level;
pub mod levels;
pub mod load;
pub mod objects;
pub mod path;
pub mod placement;
pub mod ui;
pub mod world;
