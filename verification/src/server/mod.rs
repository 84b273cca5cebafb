//! The authoritative side: the entities of a match, the systems that advance
//! them tick by tick, and the session that talks to the two clients.

pub mod ai;
pub mod invariants;
pub mod ledger;
pub mod networking;
pub mod projectiles;
pub mod simulation;
pub mod units;
pub mod world;
