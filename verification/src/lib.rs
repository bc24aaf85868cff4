//! A toroidal cellular automaton over a flat, double-buffered cell grid.
//!
//! The grid wraps at its edges (a torus), advances one generation at a
//! time under a fixed survival/birth rule, and exposes the current
//! generation for rendering and interactive editing.

pub mod cell;
pub mod render;
pub mod universe;
