//! Loot for a role-playing game: what a hero finds in a chest, how two chests
//! merge, and how a chest's contents move into the hero's hands.
//!
//! Every function carries a contract. Verus proves them all but those of the
//! three wrappers in [`randomizer`] that call the `rand` crate, which are
//! trusted; what is done with a random draw is verified for every value the
//! draw can take.

pub mod game;
pub mod item;
pub mod randomizer;
