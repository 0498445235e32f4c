//! Fixed constants of the game, in the library's fixed-point units.
//!
//! Units: positions and lengths are in millionths of a pixel (`PIXEL`),
//! vertical velocity is in thousandths of a velocity unit (`VEL_UNIT`),
//! and time is in whole milliseconds. With these scales every per-frame
//! update is exact integer arithmetic:
//!   - gravity:  velocity falls by `FALL_SPEED_MVEL_PER_MS` per millisecond;
//!   - movement: the vertical position changes by
//!     `velocity * MOVE_SPEED * dt_ms` millionths of a pixel;
//!   - scroll:   scenery moves left by `SCROLL_SPEED_UPX_PER_MS * dt_ms`.

use vstd::prelude::*;

verus! {

/// Millionths of a pixel per pixel: the position scale.
pub const PIXEL: i64 = 1_000_000;

/// Thousandths of a velocity unit per unit: the velocity scale.
pub const VEL_UNIT: i64 = 1_000;

/// Velocity set by a jump impulse (1.5 velocity units).
pub const JUMP_VELOCITY: i64 = 1_500;

/// Gravity: velocity lost per millisecond (5 velocity units per second).
pub const FALL_SPEED_MVEL_PER_MS: i64 = 5;

/// Terminal velocity: the integrated velocity never goes below this
/// (-2 velocity units).
pub const TERMINAL_VELOCITY: i64 = -2_000;

/// One velocity unit moves the bird 200 pixels per second; with the fixed
/// point scales this is exactly `velocity * MOVE_SPEED * dt_ms` millionths
/// of a pixel per frame.
pub const MOVE_SPEED: i64 = 200;

/// Scenery scroll speed: 125 pixels per second, in millionths of a pixel
/// per millisecond.
pub const SCROLL_SPEED_UPX_PER_MS: i64 = 125_000;

/// The bird dies when its vertical position falls below this (-125 pixels).
pub const DEATH_Y: i64 = -125 * PIXEL;

/// Vertical clearance between the two members of a pipe pair (100 pixels).
pub const GAP_HEIGHT: i64 = 100 * PIXEL;

/// Horizontal position at which a pipe pair is spawned (180 pixels, off the
/// right edge of the 288-pixel-wide playfield).
pub const PIPE_SPAWN_X: i64 = 180 * PIXEL;

/// Pipes whose position has crossed this threshold (mirror of the spawn
/// offset) are despawned.
pub const PIPE_CULL_X: i64 = -180 * PIXEL;

/// The spawn timer fires every 1.2 seconds.
pub const PIPE_SPAWN_INTERVAL_MS: i64 = 1_200;

/// The random vertical offset of a pipe pair is drawn uniformly from
/// [`PIPE_OFFSET_MIN`, `PIPE_OFFSET_MAX`) (the pixel range [-50, 50)).
pub const PIPE_OFFSET_MIN: i64 = -50 * PIXEL;

/// Exclusive upper bound of the random pipe offset range.
pub const PIPE_OFFSET_MAX: i64 = 50 * PIXEL;

/// Half the bird's bounding-box width (the box is 34 x 24 pixels).
pub const BIRD_HALF_W: i64 = 17 * PIXEL;

/// Half the bird's bounding-box height.
pub const BIRD_HALF_H: i64 = 12 * PIXEL;

/// Half a pipe's bounding-box width (the box is 52 x 320 pixels).
pub const PIPE_HALF_W: i64 = 26 * PIXEL;

/// Half a pipe's bounding-box height.
pub const PIPE_HALF_H: i64 = 160 * PIXEL;

/// Width of one ground tile (336 pixels); two tiles are laid end to end and
/// recycled forever.
pub const GROUND_WIDTH: i64 = 336 * PIXEL;

/// A jump is allowed only while the bird's position plus this margin is
/// still below the window height (300 pixels).
pub const JUMP_GUARD_MARGIN: i64 = 300 * PIXEL;

/// The bird sprite strip advances one animation frame every 250 ms
/// (4 frames per second), cycling through 4 frames.
pub const ANIMATION_FRAME_MS: i64 = 250;

/// Largest elapsed time a single frame may report. Machine limit: it keeps
/// every per-frame product exact in 64-bit arithmetic.
pub const MAX_FRAME_MS: i64 = 1_000_000;

/// Largest magnitude a position may have on entry to a frame. Machine
/// limit: it keeps position updates exact in 64-bit arithmetic.
pub const POS_LIMIT: i64 = 1_000_000_000_000_000;

/// Largest distance the bird can move in one frame
/// (`|velocity| <= 2_000` times `MOVE_SPEED` times `MAX_FRAME_MS`).
pub const MOVE_STEP_MAX: i64 = 400_000_000_000;

/// Largest distance scenery can scroll in one frame.
pub const SCROLL_STEP_MAX: i64 = 125_000_000_000;

/// Lowest position a pipe can reach: anything past the culling threshold is
/// despawned before it scrolls again, so one frame of scroll below the
/// threshold is the floor.
pub const PIPE_X_LOW: i64 = PIPE_CULL_X - SCROLL_STEP_MAX;

} // verus!
