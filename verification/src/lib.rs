//! Fixed-point control core for a click-to-move scene: a camera that either
//! flies freely or follows the player, and a player that walks, hopping, to
//! the ground point that was clicked.
//!
//! All quantities are integers. Lengths are in millionths of a world unit,
//! angles in millionths of a radian, blend factors in millionths, mouse
//! travel in thousandths of a pixel, time in microseconds. The player and
//! its targets lie in a cube of a million world units around the origin; the
//! camera's cube is wider by the camera's distance, so that the camera's
//! place above and behind the player is always within its reach.
//!
//! The host application collects input, does the rotation math and draws.
//! In each frame it calls, for the player, `Player::handle_player_input`,
//! then `Player::move_player`, then `Player::animate_jump`; and for the
//! camera `toggle_camera_lock` and `update_camera`, followed by what the
//! returned `CameraAction` asks for.

pub mod asset;
pub mod camera;
pub mod numeric;
pub mod player;
pub mod timer;
pub mod units;
pub mod vector;
