use vstd::prelude::*;

verus! {

/// Cells per side of the square field.
pub const SIZE_IN_CELLS: usize = 30;

/// World units per cell side; entity positions on screen are integer
/// multiples of this step.
pub const CELL_SIZE: i32 = 32;

/// Half a cell side in world units; the tolerance window of the
/// approximate position test.
pub const CELL_OFFSET: i32 = 16;

/// Maximum blast radius of a bomb, in cells, on each side of each axis.
pub const EXPLOSION_SIZE: i32 = 3;

/// Fuse: milliseconds from bomb placement until the detonation check fires.
pub const BOMB_TIMER_MS: u64 = 3000;

/// Milliseconds an explosion cell stays alive after it is spawned.
pub const EXPLOSION_LIFETIME_MS: u64 = 250;

/// Minimum milliseconds since the player's last recorded hit before
/// another hit may apply damage.
pub const HIT_COOLDOWN_MS: u64 = 150;

/// Milliseconds since the last hit after which the damage-flash visual
/// state is cleared; longer than the re-damage gate on purpose.
pub const FLASH_CLEAR_MS: u64 = 200;

/// Milliseconds a committed one-cell move stays in its transition state.
pub const MOVE_ANIMATION_DURATION: u64 = 250;

/// Health the player spawns with.
pub const PLAYER_START_HEALTH: i32 = 10;

} // verus!
