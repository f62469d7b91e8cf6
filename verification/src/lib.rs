//! A simulation of agents that lay a trail and follow it.
//!
//! A population of point agents lives on a rectangular grid whose opposite
//! edges are joined. Every frame each agent reads the trail ahead of it and
//! to either side, turns towards the strongest reading, moves, and deposits
//! on the cell it arrives at; then the whole trail map diffuses and fades.
//!
//! Every real quantity is held in fixed point, as an integer number of
//! millionths, so that a frame is an exact function of the state before it:
//!
//! * Agents are updated in the order in which they are stored, each sensing
//!   the deposits of those before it.
//! * The diffusion pass reads every neighbourhood as it was before the pass.
//! * Cosines and sines are not computed here. The host evaluates them for
//!   the headings that [`scheduler::Simulation::sensor_headings`] lists and
//!   hands them in as [`agent::SensorDirections`].
//!
//! [`fixed`] holds the units and the wrap-around arithmetic, [`grid`] and
//! [`config`] the constants and the tunable parameters, [`trail`] the trail
//! map with its diffusion pass, [`agent`] the agents with their update,
//! [`seeding`] the initial population, and [`scheduler`] the frame schedule.
//! [`laws`] and [`conservation`] prove what holds of every simulation;
//! [`sums`] holds the finite sums those proofs are written with.

pub mod agent;
pub mod config;
pub mod conservation;
pub mod fixed;
pub mod grid;
pub mod laws;
pub mod scheduler;
pub mod seeding;
pub mod sums;
pub mod trail;
