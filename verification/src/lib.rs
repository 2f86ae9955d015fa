//! A two-dimensional rigid-body engine over saturating fixed-point numbers:
//! points, segments and triangles, segment intersection and mesh overlap,
//! force vectors, and the per-tick step that detects contacts, exchanges
//! momentum and keeps bodies inside a square arena.

pub mod fixed;
pub mod physics;
pub mod simulation;
