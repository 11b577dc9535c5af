//! A toroidal Game of Life engine: a grid of two-state cells advanced by the
//! standard birth/survival rule, with cell-level mutation operations and a
//! bounded undo history, plus a small checkerboard pixel renderer.

pub mod board;
pub mod cell;
pub mod history;
pub mod universe;
