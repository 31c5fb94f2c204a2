//! A toroidal Game of Life: the neighbor topology, the seeded grid
//! initializer, the generation step, a small text format for seed records and
//! the command controller that drives a running simulation.

pub mod config;
pub mod controller;
pub mod export;
pub mod game;
pub mod grid;
pub mod patterns;
pub mod record;
pub mod text;
mod random;
pub mod topology;
