//! A two-dimensional chain-reaction particle model: neutrons, fissile
//! targets, reflectors and starter caps on a bounded plane, with a uniform
//! grid for collision detection and Verlet integration for motion.
//!
//! All quantities are fixed-point integers: one unit of length or mass is
//! `SCALE` steps, and frame lengths are in microseconds.
pub mod fixed;
pub mod particle;
pub mod grid;
pub mod collision;
pub mod random;
pub mod simulation;
pub mod laws;
pub mod display;

pub use display::{CircleRenderer, GridRenderer, LineRenderer, WindowSettings};
pub use particle::{Particle, ParticleType, Point};
pub use random::{RandomSource, ScriptedRandom, ThreadRandom};
pub use simulation::{admit_fission, create_simulation, Simulation};
