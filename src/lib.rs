//! A flocking engine for a swarm of krill: neighbour steering, predator and
//! boundary avoidance, integration and the per-agent lifecycle, on
//! fixed-point integer vectors.
pub mod vector;
pub mod config;
pub mod agent;
pub mod steering;
pub mod avoidance;
pub mod motion;
pub mod swarm;
pub mod laws;
pub mod spawn;
pub mod display;
pub mod controls;
