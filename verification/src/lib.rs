//! A tick-driven simulation core for a swarm of mobile agents that relay
//! beacon signals to their neighbours.
//!
//! All quantities are integers: coordinates are in thousandths of a world
//! unit, times in microseconds, and angles in units of which
//! [`geometry::HALF_TURN`] make a half turn. The host converts to and from
//! its own representation, and supplies per-agent displacements, which
//! need trigonometry.

pub mod geometry;
pub mod config;
pub mod agent;
pub mod random;
pub mod proximity;
pub mod swarm;
pub mod laws;
