//! A snake game on a tiled playfield: the movement model, the collision and
//! feeding rules, the session's state machine and the high-score record
//! format. Rendering, key polling and file access are left to the caller.

use vstd::prelude::*;

pub mod game;
pub mod grid;
pub mod highscore;
mod rng;
pub mod snake;

verus! {

/// Edge length of a tile, in pixels. Food and every snake segment are one
/// tile large.
pub const TILE_SIZE: i32 = 24;

/// Pixels the head travels per tick.
pub const MOVE_SPEED: i32 = 3;

/// Number of tile columns of the playfield.
pub const COLUMNS: i32 = 22;

/// Number of tile rows of the playfield; the topmost row is the header.
pub const ROWS: i32 = 20;

/// Playfield width in pixels.
pub const W: i32 = TILE_SIZE * COLUMNS;

/// Playfield height in pixels.
pub const H: i32 = TILE_SIZE * ROWS;

/// Ticks per second.
pub const FPS: u32 = 45;

/// Colour of the snake's segments.
pub const PLAYER_COLOUR: grid::Colour = grid::Colour::Red;

/// Colour of the food.
pub const FOOD_COLOUR: grid::Colour = grid::Colour::Green;

/// Colour behind everything.
pub const BG_COLOUR: grid::Colour = grid::Colour::Black;

/// Colour of the texts.
pub const FG_COLOUR: grid::Colour = grid::Colour::White;

} // verus!
