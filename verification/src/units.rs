//! The scale of the fixed-point quantities and the constants of the scene.

use vstd::prelude::*;

verus! {

/// Millionths per whole: one world unit, one radian, or a blend factor of 1.
pub const UNIT: i64 = 1_000_000;

/// The player and its targets lie in a cube of this half-width around the
/// origin (a million world units).
pub const WORLD_LIMIT: i64 = 1_000_000_000_000;

/// Walking speed of the player: 5 world units per second, which is
/// 5 millionths of a unit per microsecond.
pub const PLAYER_SPEED: u64 = 5;

/// Edge length of the player's cube.
pub const PLAYER_SIZE: i64 = 1_000_000;

/// Height of the player's centre when it stands on the ground.
pub const RESTING_HEIGHT: i64 = 500_000;

/// Peak of a hop above the base height.
pub const JUMP_HEIGHT: i64 = 1_500_000;

/// Duration of one hop, in microseconds.
pub const JUMP_PERIOD: u32 = 600_000;

/// A player closer to its target than this is put on the target.
pub const SNAP_DISTANCE: u64 = 10_000;

/// Smallest squared length (0.001, at the scale of a unit direction)
/// for which a walking direction gives a facing.
pub const FACING_MIN_SQ: u64 = 1_000_000_000;

/// Blend factor of the player's turn per microsecond: 10 per second.
pub const TURN_RATE: u64 = 10;

/// Horizontal distance of the following camera behind the player.
pub const CAMERA_DISTANCE: i64 = 15_000_000;

/// Height of the following camera above the player.
pub const CAMERA_HEIGHT: i64 = 12_000_000;

/// The camera lies in a cube of this half-width around the origin: the
/// world's, widened by the camera's distance, so that the camera's place
/// above and behind any player in the world lies in it.
pub const CAMERA_LIMIT: i64 = 1_000_015_000_000;

/// Speed of the free-flying camera: 10 world units per second.
pub const CAMERA_SPEED: u64 = 10;

/// Blend factor of the following camera per microsecond: 2 per second.
pub const FOLLOW_RATE: u64 = 2;

/// Smallest squared length (0.0001 square units) of a view direction
/// toward which the following camera turns.
pub const LOOK_MIN_SQ: u64 = 100_000_000;

/// Rotation per unit of mouse travel: 0.002 radians per pixel, which is
/// 2 millionths of a radian per thousandth of a pixel.
pub const MOUSE_SENSITIVITY: i64 = 2;

/// Largest magnitude of the pitch: a quarter turn less a hundredth of a
/// radian, rounded toward zero.
pub const PITCH_LIMIT: i64 = 1_560_796;

} // verus!
