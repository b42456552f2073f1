//! The deterministic tick kernel of a ship-combat game: ship and bullet state,
//! the per-ship command surface, the world's tick, the collision grouping policy
//! and the scenarios that seed a match and decide its outcome. The physics engine
//! and the ship controllers stay outside; the kernel talks to them through a queue
//! of effects and the contacts and motion reported back.

pub mod collision;
pub mod rng;
pub mod scenario;
pub mod ship;
pub mod simulation;
pub mod units;
pub mod vector;
