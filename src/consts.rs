//! Tuning constants of the ecosystem.
//!
//! Health and satiety amounts are in hundredths of a point
//! (`100` is one point of health).

use vstd::prelude::*;

verus! {

/// Milliseconds between two logical ticks.
pub const GAME_TICK_MS: u64 = 100;

// Terrain of the standard world.
pub const FIELD_LEFTBTM_X: i32 = 1;
pub const FIELD_LEFTBTM_Y: i32 = 6;
pub const FIELD_WIDTH: i32 = 16;
pub const FIELD_HEIGHT: i32 = 28;

/// Every terrain cell and the ship's home lie within this distance of
/// the origin on each axis.
pub const COORD_LIMIT: i32 = 1000000;

// Initial population of the standard world.
pub const INITIAL_BEAR_NUM: u32 = 1;
pub const INITIAL_FOX_NUM: u32 = 3;
pub const INITIAL_WALNUT_NUM: u32 = 10;

// Ages, in ticks.
pub const HEALTHSPAN_STRONG_BEAR: u32 = 2100;
pub const LIFESPAN_WEAK_BEAR: u32 = 3000;

// Health.
pub const MAX_HP_HUMAN: u64 = 10000;
pub const MAX_HP_BEAR: u64 = 3000;
pub const MAX_HP_FOX: u64 = 500;
pub const MAX_HP_WALNUT: u64 = 100;
pub const INITIAL_HP_HUMAN: u64 = 5000;

// Health lost to hunger each tick.
pub const DECREASE_HP_HUMAN: u64 = 10;
pub const DECREASE_HP_BEAR: u64 = 3;
pub const DECREASE_HP_FOX: u64 = 1;
pub const DECREASE_HP_WALNUT: u64 = 0;

// Health gained by the eater, by the species eaten.
pub const HEALING_HP_HUMAN: u64 = 2000;
pub const HEALING_HP_BEAR: u64 = 3000;
pub const HEALING_HP_FOX: u64 = 500;
pub const HEALING_HP_WALNUT: u64 = 100;

// Satiety gained by the eater, by the species eaten.
pub const HEALING_SATIETY_HUMAN: u64 = 800;
pub const HEALING_SATIETY_BEAR: u64 = 400;
pub const HEALING_SATIETY_FOX: u64 = 200;
pub const HEALING_SATIETY_WALNUT: u64 = 100;

// Satiety at which a species reproduces; the others never do.
pub const MAX_SATIETY_STRONG_BEAR: u64 = 1000;
pub const MAX_SATIETY_FOX: u64 = 50;

/// A bear counts as weak below `WEAK_HP_NUM / WEAK_HP_DEN` of its
/// maximum health, and as healthy above it.
pub const WEAK_HP_NUM: u64 = 9;
pub const WEAK_HP_DEN: u64 = 10;

// Stamina.
pub const MAX_STAMINA: u32 = 100;
pub const HEALING_STAMINA_HUMAN: u32 = 30;
pub const HEALING_STAMINA_STRONG_BEAR: u32 = 10;
pub const HEALING_STAMINA_WEAK_BEAR: u32 = 10;
pub const HEALING_STAMINA_FOX: u32 = 10;
pub const HEALING_STAMINA_WALNUT: u32 = 0;
pub const HEALING_STAMINA_SHIP: u32 = 4;

/// Offspring land at an offset in `-SPAWN_RANGE .. SPAWN_RANGE` on each
/// axis (upper end excluded).
pub const SPAWN_RANGE: i32 = 2;

/// A fauna mover that sees prey rolls `1 ..= APPROACH_ROLL_MAX` and chases
/// on a roll of at most `APPROACH_THRESHOLD`.
pub const APPROACH_ROLL_MAX: u32 = 10;
pub const APPROACH_THRESHOLD: u32 = 7;

/// Each walnut rolls `1 ..= WALNUT_ROLL_MAX` each tick and sprouts on a
/// roll above `WALNUT_THRESHOLD`.
pub const WALNUT_ROLL_MAX: u32 = 100;
pub const WALNUT_THRESHOLD: u32 = 95;

/// Number of steps in the ship's patrol loop.
pub const SHIP_PATH_LEN: usize = 88;

} // verus!
