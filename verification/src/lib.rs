//! Conway's Game of Life on a square grid whose edges wrap around.
//!
//! The grid is a torus: a coordinate that leaves the grid on one side comes
//! back in on the opposite side. Every generation is computed from the
//! previous one by the standard rule: a dead cell with exactly three live
//! neighbours is born, a live cell with two or three live neighbours
//! survives, and every other cell is dead.

pub mod torus;
pub mod model;
pub mod grid;
pub mod stepper;
pub mod render;
pub mod theorems;
pub mod stamping;
pub mod pictures;
pub mod still_life;
pub mod glider;

pub use crate::grid::{GridError, LifeGrid, MAX_SIZE};
pub use crate::render::write_dashes;
pub use crate::stepper::{neighbors_cell, step, step_cell};
