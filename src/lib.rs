//! Conway's Game of Life on a toroidal grid, with its wire record and the
//! state that a simulation loop and its readers share.

pub mod codec;
pub mod generation;
pub mod grid;
pub mod printer;
pub mod random;
pub mod state;
