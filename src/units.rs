//! Units of the fixed-point model and the constants shared with the engine.

use vstd::prelude::*;

verus! {

/// Fixed-point scale: lengths, speeds, accelerations, angles, health and damage all
/// count thousandths of their unit (metre, metre per second, radian, hit point).
pub const ONE: i64 = 1000;

/// Durations count units of 1/60000 s, so one physics tick is exactly 1000 units.
pub const TIME_UNITS_PER_SECOND: u64 = 60_000;

/// Length of one physics tick (1/60 s), in time units.
pub const PHYSICS_TICK_LENGTH: u64 = 1_000;

/// Side length of the square arena, in thousandths of a metre; it spans
/// `-WORLD_SIZE / 2 ..= WORLD_SIZE / 2` on both axes.
pub const WORLD_SIZE: i64 = 10_000_000;

/// Half the side length of the arena.
pub const HALF_WORLD_SIZE: i64 = 5_000_000;

/// One full turn (2π) in thousandths of a radian, rounded down.
pub const FULL_TURN: i64 = 6283;

/// Half a turn (π) in thousandths of a radian.
pub const HALF_TURN: i64 = 3142;

/// A quarter turn (π/2) in thousandths of a radian.
pub const QUARTER_TURN: i64 = 1571;

/// Three quarters of a turn (3π/2) in thousandths of a radian.
pub const THREE_QUARTER_TURN: i64 = 4712;

} // verus!
