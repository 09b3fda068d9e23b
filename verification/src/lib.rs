//! A verified Conway's Game of Life engine: a fixed-size rectangular grid of
//! boolean cells with the standard synchronous update rule (no wraparound at
//! the edges), together with a pausable fixed-interval clock that gates how
//! often a new generation is computed.

pub mod clock;
pub mod grid;
