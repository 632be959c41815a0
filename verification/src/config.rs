//! Global game settings.

use vstd::prelude::*;

verus! {

/// The current version of the game.
pub const GAME_VERSION: &'static str = "v0.2.7";

/// The name of the game, shown on the window and in the message log.
pub const GAME_NAME: &'static str = "B_Ruge";

/// The width of the game's window.
pub const WINDOW_WIDTH: i32 = 80;

/// The height of the game's window.
pub const WINDOW_HEIGHT: i32 = 50;

/// The width of the in-game map.
pub const MAP_WIDTH: i32 = 80;

/// The height of the in-game map.
pub const MAP_HEIGHT: i32 = 40;

/// The maximum number of placement attempts for rooms on a map.
pub const MAX_ROOMS: i32 = 30;

/// The minimum size of a room on the map.
pub const MIN_ROOM_SIZE: i32 = 6;

/// The upper bound (exclusive) of the size of a room on the map.
pub const MAX_ROOM_SIZE: i32 = 10;

/// The maximum amount of monsters that can be spawned in a single room.
pub const MAX_MONSTERS_PER_ROOM: i32 = 4;

/// The maximum amount of items that can be spawned in a single room.
pub const MAX_ITEMS_PER_ROOM: i32 = 2;

} // verus!
