//! A fire-spread / vegetation-regrowth cellular automaton over a fixed
//! rectangular grid.
//!
//! Every cell holds a vegetation state (`Green`, `Burning`, `Empty`) that
//! evolves once per tick from its own state and the states of its Moore
//! neighbors, combined with stochastic ignition and regrowth draws. The grid
//! is double buffered: a tick reads a frozen snapshot of the current
//! generation and stages every new state in a separate buffer, so the result
//! never depends on the order in which cells are visited.

pub mod engine;
pub mod grid;
pub mod random;
pub mod rule;
pub mod state;
