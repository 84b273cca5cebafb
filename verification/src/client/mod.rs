//! A client's side: the table from the server's identifiers to its own, the
//! picture of the arena that it keeps, and the deck that its player plays
//! from.

pub mod deck;
pub mod networking;
pub mod units;
