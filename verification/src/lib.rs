//! Tick-based simulation engine for a grid chase game: a hunter collects
//! pellets on a rectangular board while chasers pursue it with a greedy
//! one-step heuristic. The engine is deterministic and side-effect free;
//! terminal input and rendering live outside this crate.

pub mod chase;
pub mod game;
pub mod grid;
pub mod laws;
pub mod layout;
