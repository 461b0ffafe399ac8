//! Simulation core of a small arcade game themed as a crashing operating
//! system: entities, bounded resource meters, periodic spawning, collision
//! outcomes, achievements and a self-duplicating glitch engine.
//!
//! All geometry is fixed-point: one world unit is `geometry::SCALE` steps.

pub mod geometry;
pub mod meter;
pub mod achievements;
pub mod entities;
pub mod spawn;
pub mod glitch;
pub mod world;
pub mod random;
