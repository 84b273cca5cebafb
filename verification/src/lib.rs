//! The simulation and synchronisation core of a two-player lane-combat game.
//!
//! A server owns every unit, tower and projectile, advances them in fixed
//! ticks and tells two clients what was spawned, what was removed and where
//! everything is. Each client keeps a table from the server's entity
//! identifiers to its own and shows the arena from its player's side.

pub mod client;
pub mod common;
pub mod geometry;
pub mod lifecycle;
pub mod seq_search;
pub mod server;
pub mod timer;
