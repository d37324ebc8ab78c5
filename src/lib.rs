//! A particle-effects simulation core on integer fixed-point units.
//!
//! Positions, velocities and accelerations are integers in a unit of length
//! and a unit of time chosen by the host; ages and time steps count that unit
//! of time. Normalized times (for curves and normalized ages) are integers in
//! `0..=NORM_ONE`, where `NORM_ONE` stands for 1.

mod geometry;
mod transition;
mod start_param;
mod system;

pub use geometry::Vec2;
pub use transition::{Interpolate, Transition, NORM_ONE};
pub use start_param::StartParam;
pub use system::{Particle, ParticleSystem, ParticleSystemBuilder, RenderRecord, DEFAULT_SIZE};
