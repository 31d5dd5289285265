//! A toroidal cellular-automaton engine (Conway's Game of Life family).
//!
//! The grid is a fixed-size, double-buffered 2D field of cells with
//! wraparound (toroidal) topology. Every generation step counts each
//! cell's eight wrapped neighbors against the standard birth/survival
//! rule and writes the next generation into a spare buffer, which is
//! then swapped in wholesale so the update is simultaneous.

pub mod cells;
pub mod laws;
