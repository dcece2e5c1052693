//! Core simulation for a grid-based snake game: a body of contiguous
//! segments moves across a toroidal grid on a fixed tick, eats food to
//! grow, and resets after running into itself.
//!
//! The library holds only the simulation state machine: direction
//! buffering, per-tick movement with wrap-around, tail-follow segment
//! propagation, self-collision detection, food placement under occupancy
//! constraints, growth scheduling and round reset. Rendering, windowing
//! and raw key sampling are left to the host.

pub mod config;
pub mod direction;
pub mod food;
pub mod game;
pub mod grid;
pub mod snake;
pub mod timer;
