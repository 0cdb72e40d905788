//! A bounded Game of Life grid that can be live-resized.
//!
//! The grid owns a dense row-major cell store together with population and
//! generation counters. Generation advancement evaluates the standard
//! birth/death rule against a single snapshot of the current generation;
//! resizing grows or shrinks the grid from alternating edges so that repeated
//! odd-difference resizes treat both edges fairly.

pub mod direction;
pub mod grid;
pub mod laws;
pub mod resize;

pub use direction::Direction;
pub use grid::Grid;
