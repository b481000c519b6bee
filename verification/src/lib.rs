//! A verified world-simulation engine for a classic "3D pipes" animation:
//! pipes grow step by step through a bounded integer grid, never overlapping,
//! until a time-phased lifecycle freezes the scene and eventually requests a
//! reset. The engine is deterministic under a fixed random seed and emits
//! plain data (per-pipe step deltas and spawn events) for an external
//! renderer to consume; it performs no I/O and owns no rendering state.

pub mod config;
pub mod grid;
pub mod laws;
pub mod pipe;
pub mod rng;
pub mod space;
pub mod world;
