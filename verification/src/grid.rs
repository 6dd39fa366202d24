//! The playfield's geometry: pixel positions, tiles, cell overlap and the
//! four directions of travel.

use vstd::prelude::*;
use crate::{COLUMNS, H, MOVE_SPEED, ROWS, TILE_SIZE, W};

verus! {

/// A cosmetic tag; no rule of the game reads it.
#[derive(Clone, Copy, Debug, PartialEq, Eq, Structural)]
pub enum Colour {
    Black,
    White,
    Red,
    Green,
}

/// A point of the playfield in pixels, `x` growing to the right and `y`
/// growing downwards.
#[derive(Clone, Copy, Debug, PartialEq, Eq, Structural)]
pub struct Position {
    pub x: i32,
    pub y: i32,
}

/// One of the four headings a snake can have.
#[derive(Clone, Copy, Debug, PartialEq, Eq, Structural)]
pub enum Direction {
    Up,
    Down,
    Left,
    Right,
}

/// A point of the unbounded mathematical plane.
pub struct Point {
    pub x: int,
    pub y: int,
}

/// The mathematical value of a cell: a square of `TILE_SIZE` pixels with its
/// top-left corner at `at`, and its colour tag.
pub struct Cell {
    pub at: Point,
    pub colour: Colour,
}

impl View for Position {
    type V = Point;

    open spec fn view(&self) -> Point {
        Point { x: self.x as int, y: self.y as int }
    }
}

impl Point {
    /// The point `dx` pixels to the right of and `dy` pixels below `self`.
    pub open spec fn shifted(self, dx: int, dy: int) -> Point {
        Point { x: self.x + dx, y: self.y + dy }
    }

    /// Both coordinates fit the machine's pixel type.
    pub open spec fn representable(self) -> bool {
        i32::MIN <= self.x <= i32::MAX && i32::MIN <= self.y <= i32::MAX
    }
}

/// Ticks the head needs to cross one tile.
pub open spec fn ticks_per_tile() -> int {
    TILE_SIZE as int / MOVE_SPEED as int
}

/// Number of leading segments that are never tested against the head.
pub open spec fn exempt_segments() -> int {
    ticks_per_tile() * 3
}

/// Both coordinates are multiples of the tile size.
pub open spec fn on_tile(c: Point) -> bool {
    c.x % TILE_SIZE as int == 0 && c.y % TILE_SIZE as int == 0
}

/// The squares of `a` and `b` meet: on both axes their projections
/// intersect, a shared edge or corner included.
pub open spec fn overlaps(a: Point, b: Point) -> bool {
    &&& a.x <= b.x + TILE_SIZE
    &&& b.x <= a.x + TILE_SIZE
    &&& a.y <= b.y + TILE_SIZE
    &&& b.y <= a.y + TILE_SIZE
}

/// The square of `c` does not lie wholly inside the playfield.
pub open spec fn out_of_bounds(c: Point) -> bool {
    c.x < 0 || c.x > W - TILE_SIZE || c.y < 0 || c.y > H - TILE_SIZE
}

/// `c` sits exactly on a tile below the header row.
pub open spec fn on_food_tile(c: Point) -> bool {
    &&& 0 <= c.x <= W - TILE_SIZE
    &&& TILE_SIZE <= c.y <= H - TILE_SIZE
    &&& on_tile(c)
}

/// The top-left corner of the tile in column `col` and row `row`.
pub open spec fn tile_corner(col: int, row: int) -> Point {
    Point { x: col * TILE_SIZE, y: row * TILE_SIZE }
}

/// `col` and `row` name a tile below the header row.
pub open spec fn food_tile(col: int, row: int) -> bool {
    0 <= col < COLUMNS && 1 <= row < ROWS
}

impl Direction {
    /// Horizontal component of the unit vector.
    pub open spec fn dx(self) -> int {
        match self {
            Direction::Left => -1,
            Direction::Right => 1,
            _ => 0,
        }
    }

    /// Vertical component of the unit vector.
    pub open spec fn dy(self) -> int {
        match self {
            Direction::Up => -1,
            Direction::Down => 1,
            _ => 0,
        }
    }

    /// The heading runs along the x axis.
    pub open spec fn horizontal(self) -> bool {
        self.dx() != 0
    }

    /// The heading with both components negated.
    pub open spec fn opposite(self) -> Direction {
        match self {
            Direction::Up => Direction::Down,
            Direction::Down => Direction::Up,
            Direction::Left => Direction::Right,
            Direction::Right => Direction::Left,
        }
    }

    /// The two headings run along different axes.
    pub open spec fn crosses(self, other: Direction) -> bool {
        self.horizontal() != other.horizontal()
    }

    /// Horizontal component of the unit vector.
    pub fn step_x(self) -> (d: i32)
        ensures
            d == self.dx(),
    {
        match self {
            Direction::Left => -1,
            Direction::Right => 1,
            _ => 0,
        }
    }

    /// Vertical component of the unit vector.
    pub fn step_y(self) -> (d: i32)
        ensures
            d == self.dy(),
    {
        match self {
            Direction::Up => -1,
            Direction::Down => 1,
            _ => 0,
        }
    }

    /// Whether the heading runs along the x axis.
    pub fn is_horizontal(self) -> (h: bool)
        ensures
            h == self.horizontal(),
    {
        match self {
            Direction::Left | Direction::Right => true,
            _ => false,
        }
    }
}

/// Every heading is a unit vector along one axis: exactly one component
/// is zero and the other is one step forwards or backwards. The opposite
/// heading negates both.
pub proof fn lemma_unit_vector(d: Direction)
    ensures
        (d.dx() == 0) != (d.dy() == 0),
        d.dx() * d.dx() + d.dy() * d.dy() == 1,
        d.opposite().dx() == -d.dx(),
        d.opposite().dy() == -d.dy(),
        d.opposite() != d,
        !d.crosses(d) && !d.crosses(d.opposite()),
{
}

/// The points that `on_food_tile` accepts are exactly the corners of the
/// tiles below the header row.
pub proof fn lemma_food_tiles(c: Point)
    ensures
        on_food_tile(c) <==> exists|col: int, row: int|
            food_tile(col, row) && c == #[trigger] tile_corner(col, row),
{
    if on_food_tile(c) {
        let col = c.x / TILE_SIZE as int;
        let row = c.y / TILE_SIZE as int;
        assert(food_tile(col, row) && c == tile_corner(col, row));
    }
}

} // verus!
