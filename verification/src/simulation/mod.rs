//! The simulation step over a collection of particles.

pub mod particle;
pub mod spawn;
pub mod step;

pub use self::particle::Particle;
pub use self::step::{contain, step};
