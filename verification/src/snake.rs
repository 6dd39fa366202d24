//! The cells of the game: the food, and the snake as a chain of cells that
//! follow one another with one tick of lag.

use vstd::prelude::*;
use crate::grid::{
    exempt_segments, food_tile, on_food_tile, on_tile, out_of_bounds, overlaps, ticks_per_tile,
    tile_corner, Cell, Colour, Direction, Point, Position,
};
use crate::rng::random_in_range;
use crate::{COLUMNS, H, MOVE_SPEED, PLAYER_COLOUR, ROWS, TILE_SIZE, W};

verus! {

/// A filled rectangle for the renderer, in pixels.
#[derive(Clone, Copy, Debug, PartialEq, Eq, Structural)]
pub struct Sprite {
    pub x: i32,
    pub y: i32,
    pub width: i32,
    pub height: i32,
    pub colour: Colour,
}

/// The rectangle that shows `cell` moved by `dx` and `dy` pixels.
pub open spec fn sprite_at(cell: Cell, dx: int, dy: int) -> Sprite {
    Sprite {
        x: (cell.at.x + dx) as i32,
        y: (cell.at.y + dy) as i32,
        width: TILE_SIZE,
        height: TILE_SIZE,
        colour: cell.colour,
    }
}

/// A coloured square of one tile: the food, or one segment of the snake.
#[derive(Clone, Copy, Debug, PartialEq, Eq, Structural)]
pub struct Cube {
    colour: Colour,
    x: i32,
    y: i32,
}

impl View for Cube {
    type V = Cell;

    closed spec fn view(&self) -> Cell {
        Cell { at: Point { x: self.x as int, y: self.y as int }, colour: self.colour }
    }
}

impl Cube {
    /// A cube with its top-left corner at `place`.
    pub fn new(place: Position, colour: Colour) -> (cube: Cube)
        ensures
            cube@ == (Cell { at: place@, colour }),
    {
        Cube { colour, x: place.x, y: place.y }
    }

    /// The top-left corner.
    pub fn position(&self) -> (place: Position)
        ensures
            place@ == self@.at,
    {
        Position { x: self.x, y: self.y }
    }

    /// The colour tag.
    pub fn colour(&self) -> (colour: Colour)
        ensures
            colour == self@.colour,
    {
        self.colour
    }

    /// Whether the squares of the two cubes meet, a shared edge or corner
    /// included.
    pub fn overlaps(&self, other: &Cube) -> (hit: bool)
        ensures
            hit == overlaps(self@.at, other@.at),
    {
        let tile: i64 = TILE_SIZE as i64;
        let dx: i64 = self.x as i64 - other.x as i64;
        let dy: i64 = self.y as i64 - other.y as i64;
        -tile <= dx && dx <= tile && -tile <= dy && dy <= tile
    }

    /// Moves the cube onto the tile in column `col` and row `row`.
    pub fn go_to_tile(&mut self, col: i32, row: i32)
        requires
            0 <= col < COLUMNS,
            0 <= row < ROWS,
        ensures
            final(self)@ == (Cell { at: tile_corner(col as int, row as int), colour: old(self)@.colour }),
    {
        self.x = col * TILE_SIZE;
        self.y = row * TILE_SIZE;
    }

    /// Moves the cube onto a tile below the header row, drawn at random:
    /// the column and the row each with equal chances.
    pub fn go_to_random_pos(&mut self)
        ensures
            on_food_tile(final(self)@.at),
            final(self)@.colour == old(self)@.colour,
    {
        let col: i32 = random_in_range(0, COLUMNS);
        let row: i32 = random_in_range(1, ROWS);
        self.go_to_tile(col, row);
    }

    /// The rectangle to paint for this cube.
    pub fn draw(&self) -> (sprite: Sprite)
        ensures
            sprite == sprite_at(self@, 0, 0),
    {
        Sprite { x: self.x, y: self.y, width: TILE_SIZE, height: TILE_SIZE, colour: self.colour }
    }
}

/// The mathematical value of a snake.
pub struct SnakeView {
    /// The segments, head first.
    pub body: Seq<Cell>,
    /// The heading the head travels in.
    pub direction: Direction,
    /// The heading last asked for.
    pub desired: Direction,
    /// Whether `desired` still waits to become the heading.
    pub pending: bool,
}

impl SnakeView {
    /// The snake has a head, and a turn that waits leads onto the other
    /// axis.
    pub open spec fn wf(self) -> bool {
        &&& self.body.len() >= 1
        &&& self.pending ==> self.desired.crosses(self.direction)
    }

    /// The corner of the first segment.
    pub open spec fn head(self) -> Point {
        self.body[0].at
    }

    /// The snake after the held keys were read. A key counts only while the
    /// snake travels along the other axis; left is asked before right and
    /// up before down, and a vertical request made in the same tick
    /// replaces a horizontal one.
    pub open spec fn latch(self, left: bool, right: bool, up: bool, down: bool) -> SnakeView {
        let sideways = if left && !self.direction.horizontal() {
            SnakeView { desired: Direction::Left, pending: true, ..self }
        } else if right && !self.direction.horizontal() {
            SnakeView { desired: Direction::Right, pending: true, ..self }
        } else {
            self
        };
        if up && self.direction.horizontal() {
            SnakeView { desired: Direction::Up, pending: true, ..sideways }
        } else if down && self.direction.horizontal() {
            SnakeView { desired: Direction::Down, pending: true, ..sideways }
        } else {
            sideways
        }
    }

    /// The snake after a waiting turn was given its chance: it becomes the
    /// heading only while the head sits exactly on a tile.
    pub open spec fn commit(self) -> SnakeView {
        if self.pending && on_tile(self.head()) {
            SnakeView { direction: self.desired, pending: false, ..self }
        } else {
            self
        }
    }

    /// The snake one tick of travel later: each segment behind the head
    /// takes the place of the one before it, and the head moves
    /// `MOVE_SPEED` pixels along the heading.
    pub open spec fn advance(self) -> SnakeView {
        SnakeView {
            body: Seq::new(
                self.body.len(),
                |i: int|
                    if i == 0 {
                        Cell {
                            at: self.head().shifted(
                                self.direction.dx() * MOVE_SPEED,
                                self.direction.dy() * MOVE_SPEED,
                            ),
                            colour: self.body[0].colour,
                        }
                    } else {
                        Cell { at: self.body[i - 1].at, colour: self.body[i].colour }
                    },
            ),
            ..self
        }
    }

    /// One whole tick: read the keys, commit a waiting turn, travel.
    pub open spec fn step(self, left: bool, right: bool, up: bool, down: bool) -> SnakeView {
        self.latch(left, right, up, down).commit().advance()
    }

    /// The head can travel one tick in any direction without leaving the
    /// machine's pixel range.
    pub open spec fn can_advance(self) -> bool {
        &&& i32::MIN + MOVE_SPEED <= self.head().x <= i32::MAX - MOVE_SPEED
        &&& i32::MIN + MOVE_SPEED <= self.head().y <= i32::MAX - MOVE_SPEED
    }

    /// The snake after one feeding: as many new segments as a tile takes
    /// ticks to cross, all at the place of the last segment.
    pub open spec fn grown(self) -> SnakeView {
        SnakeView {
            body: self.body + Seq::new(
                ticks_per_tile() as nat,
                |i: int| Cell { at: self.body.last().at, colour: PLAYER_COLOUR },
            ),
            ..self
        }
    }

    /// Some segment's square meets the square at `food`.
    pub open spec fn hits(self, food: Point) -> bool {
        exists|i: int| 0 <= i < self.body.len() && overlaps((#[trigger] self.body[i]).at, food)
    }

    /// Some segment behind the exempt ones meets the head's square.
    pub open spec fn bites_itself(self) -> bool {
        exists|i: int|
            exempt_segments() <= i < self.body.len() && overlaps(
                (#[trigger] self.body[i]).at,
                self.head(),
            )
    }

    /// The head left the playfield, or the snake bites itself.
    pub open spec fn dead(self) -> bool {
        out_of_bounds(self.head()) || self.bites_itself()
    }

    /// Some tile below the header row is met by no segment.
    pub open spec fn has_free_tile(self) -> bool {
        exists|col: int, row: int|
            food_tile(col, row) && !self.hits(#[trigger] tile_corner(col, row))
    }
}

/// The player's snake.
pub struct Snake {
    body: Vec<Cube>,
    desired_dir: Direction,
    direction: Direction,
    should_change: bool,
}

impl View for Snake {
    type V = SnakeView;

    closed spec fn view(&self) -> SnakeView {
        SnakeView {
            body: Seq::new(self.body@.len(), |i: int| self.body@[i]@),
            direction: self.direction,
            desired: self.desired_dir,
            pending: self.should_change,
        }
    }
}

impl Snake {
    /// The invariant of every snake this module hands out.
    pub open spec fn wf(&self) -> bool {
        self@.wf()
    }

    /// A snake of one segment with its head at `head`, travelling in
    /// `direction`, with no turn waiting.
    pub fn spawn(head: Position, direction: Direction) -> (snake: Snake)
        ensures
            snake.wf(),
            snake@ == (SnakeView {
                body: seq![Cell { at: head@, colour: PLAYER_COLOUR }],
                direction,
                desired: direction,
                pending: false,
            }),
    {
        let mut body: Vec<Cube> = Vec::new();
        body.push(Cube::new(head, PLAYER_COLOUR));
        let snake = Snake { body, desired_dir: direction, direction, should_change: false };
        assert(snake@.body =~= seq![Cell { at: head@, colour: PLAYER_COLOUR }]);
        snake
    }

    /// A snake of one segment in the middle of the playfield, travelling to
    /// the right.
    pub fn new() -> (snake: Snake)
        ensures
            snake.wf(),
            snake@ == (SnakeView {
                body: seq![Cell { at: Point { x: W / 2, y: H / 2 }, colour: PLAYER_COLOUR }],
                direction: Direction::Right,
                desired: Direction::Right,
                pending: false,
            }),
    {
        Snake::spawn(Position { x: W / 2, y: H / 2 }, Direction::Right)
    }

    /// Whether the head sits exactly on a tile.
    fn on_tile(&self) -> (aligned: bool)
        requires
            self.wf(),
        ensures
            aligned == on_tile(self@.head()),
    {
        self.body[0].x % TILE_SIZE == 0 && self.body[0].y % TILE_SIZE == 0
    }

    /// One tick: reads the held keys, commits a waiting turn if the head
    /// sits on a tile, moves every segment behind the head to where the one
    /// before it was, and moves the head.
    pub fn update(&mut self, left: bool, right: bool, up: bool, down: bool)
        requires
            old(self).wf(),
            old(self)@.can_advance(),
        ensures
            final(self).wf(),
            final(self)@ == old(self)@.step(left, right, up, down),
            final(self)@.body.len() == old(self)@.body.len(),
            forall|i: int|
                1 <= i < old(self)@.body.len() ==> (#[trigger] final(self)@.body[i]).at
                    == old(self)@.body[i - 1].at,
            final(self)@.direction != old(self)@.direction.opposite(),
            !on_tile(old(self)@.head()) ==> final(self)@.direction == old(self)@.direction,
    {
        // Horizontal requests
        if left && !self.direction.is_horizontal() {
            self.desired_dir = Direction::Left;
            self.should_change = true;
        } else if right && !self.direction.is_horizontal() {
            self.desired_dir = Direction::Right;
            self.should_change = true;
        }

        // Vertical requests
        if up && self.direction.is_horizontal() {
            self.desired_dir = Direction::Up;
            self.should_change = true;
        } else if down && self.direction.is_horizontal() {
            self.desired_dir = Direction::Down;
            self.should_change = true;
        }

        if self.should_change && self.on_tile() {
            self.direction = self.desired_dir;
            self.should_change = false;
        }

        let ghost turned = self@;
        let len: usize = self.body.len();
        let mut cur_i: usize = len - 1;
        // Move the body, starting from the end (ignoring the head)
        while cur_i > 0
            invariant
                len == self.body@.len(),
                len == old(self).body@.len(),
                cur_i < len,
                self.direction == turned.direction,
                self.desired_dir == turned.desired,
                self.should_change == turned.pending,
                forall|j: int| 0 <= j <= cur_i ==> self.body@[j] == old(self).body@[j],
                forall|j: int|
                    cur_i < j < len ==> (#[trigger] self.body@[j])@ == (Cell {
                        at: old(self).body@[j - 1]@.at,
                        colour: old(self).body@[j]@.colour,
                    }),
            decreases cur_i,
        {
            let ahead: Cube = self.body[cur_i - 1];
            let here: Cube = self.body[cur_i];
            self.body[cur_i] = Cube { colour: here.colour, x: ahead.x, y: ahead.y };
            cur_i -= 1;
        }

        // Move the head
        let head: Cube = self.body[0];
        self.body[0] = Cube {
            colour: head.colour,
            x: head.x + self.direction.step_x() * MOVE_SPEED,
            y: head.y + self.direction.step_y() * MOVE_SPEED,
        };
        assert(self@.body =~= turned.advance().body);
    }

    /// Whether the game is lost: the head's square left the playfield, or
    /// it meets a segment behind the exempt ones.
    pub fn is_dead(&self) -> (dead: bool)
        requires
            self.wf(),
        ensures
            dead == self@.dead(),
    {
        let head: Cube = self.body[0];
        // Out of bounds horizontally
        if head.x < 0 || head.x > W - TILE_SIZE {
            return true;
        }
        // Out of bounds vertically
        if head.y < 0 || head.y > H - TILE_SIZE {
            return true;
        }
        // Crashed into the body (not the first few sections, which always hit)
        let exempt: usize = (TILE_SIZE / MOVE_SPEED * 3) as usize;
        let mut i: usize = exempt;
        while i < self.body.len()
            invariant
                exempt == exempt_segments(),
                exempt <= i,
                head == self.body@[0],
                self.wf(),
                forall|j: int|
                    exempt <= j < i && j < self.body@.len() ==> !overlaps(
                        (#[trigger] self@.body[j]).at,
                        self@.head(),
                    ),
            decreases self.body.len() - i,
        {
            if self.body[i].overlaps(&head) {
                assert(overlaps(self@.body[i as int].at, self@.head()));
                return true;
            }
            i += 1;
        }
        false
    }

    /// Appends as many segments as a tile takes ticks to cross, all at the
    /// place of the last segment; travel spreads them out again.
    pub fn grow(&mut self)
        requires
            old(self).wf(),
        ensures
            final(self).wf(),
            final(self)@ == old(self)@.grown(),
            final(self)@.body.len() == old(self)@.body.len() + ticks_per_tile(),
    {
        let mut count: i32 = 0;
        while count < TILE_SIZE / MOVE_SPEED
            invariant
                0 <= count <= ticks_per_tile(),
                self.direction == old(self).direction,
                self.desired_dir == old(self).desired_dir,
                self.should_change == old(self).should_change,
                old(self).body@.len() >= 1,
                self.body@.len() == old(self).body@.len() + count,
                forall|j: int| 0 <= j < old(self).body@.len() ==> self.body@[j] == old(self).body@[j],
                forall|j: int|
                    old(self).body@.len() <= j < self.body@.len() ==> (#[trigger] self.body@[j])@
                        == (Cell { at: old(self).body@.last()@.at, colour: PLAYER_COLOUR }),
            decreases ticks_per_tile() - count,
        {
            let last: Cube = self.body[self.body.len() - 1];
            self.body.push(Cube::new(Position { x: last.x, y: last.y }, PLAYER_COLOUR));
            count += 1;
        }
        assert(self@.body =~= old(self)@.grown().body);
    }

    /// Whether any segment's square meets the food's.
    pub fn hit_food(&self, food: &Cube) -> (hit: bool)
        ensures
            hit == self@.hits(food@.at),
    {
        let mut i: usize = 0;
        while i < self.body.len()
            invariant
                forall|j: int|
                    0 <= j < i && j < self.body@.len() ==> !overlaps(
                        (#[trigger] self@.body[j]).at,
                        food@.at,
                    ),
            decreases self.body.len() - i,
        {
            if self.body[i].overlaps(food) {
                assert(overlaps(self@.body[i as int].at, food@.at));
                return true;
            }
            i += 1;
        }
        false
    }

    /// The rectangles to paint, head first, each moved by `offset`.
    pub fn draw(&self, offset: (i32, i32)) -> (sprites: Vec<Sprite>)
        requires
            forall|i: int|
                0 <= i < self@.body.len() ==> (#[trigger] self@.body[i]).at.shifted(
                    offset.0 as int,
                    offset.1 as int,
                ).representable(),
        ensures
            sprites@.len() == self@.body.len(),
            forall|i: int|
                0 <= i < self@.body.len() ==> #[trigger] sprites@[i] == sprite_at(
                    self@.body[i],
                    offset.0 as int,
                    offset.1 as int,
                ),
    {
        let mut sprites: Vec<Sprite> = Vec::new();
        let mut i: usize = 0;
        while i < self.body.len()
            invariant
                i <= self.body@.len(),
                sprites@.len() == i,
                forall|j: int|
                    0 <= j < self@.body.len() ==> (#[trigger] self@.body[j]).at.shifted(
                        offset.0 as int,
                        offset.1 as int,
                    ).representable(),
                forall|j: int|
                    0 <= j < i ==> #[trigger] sprites@[j] == sprite_at(
                        self@.body[j],
                        offset.0 as int,
                        offset.1 as int,
                    ),
            decreases self.body.len() - i,
        {
            let item: Cube = self.body[i];
            assert(self@.body[i as int].at.shifted(offset.0 as int, offset.1 as int).representable());
            sprites.push(
                Sprite {
                    x: item.x + offset.0,
                    y: item.y + offset.1,
                    width: TILE_SIZE,
                    height: TILE_SIZE,
                    colour: item.colour,
                },
            );
            i += 1;
        }
        sprites
    }

    /// Number of segments.
    pub fn len(&self) -> (n: usize)
        ensures
            n == self@.body.len(),
    {
        self.body.len()
    }

    /// The corner of the first segment.
    pub fn head(&self) -> (place: Position)
        requires
            self.wf(),
        ensures
            place@ == self@.head(),
    {
        self.body[0].position()
    }

    /// The corner of segment `i`, counted from the head, if there is one.
    pub fn segment(&self, i: usize) -> (place: Option<Position>)
        ensures
            i < self@.body.len() ==> (place matches Some(p) && p@ == self@.body[i as int].at),
            i >= self@.body.len() ==> place is None,
    {
        if i < self.body.len() {
            Some(self.body[i].position())
        } else {
            None
        }
    }

    /// The heading the head travels in.
    pub fn direction(&self) -> (direction: Direction)
        ensures
            direction == self@.direction,
    {
        self.direction
    }

    /// The heading last asked for.
    pub fn desired_direction(&self) -> (direction: Direction)
        ensures
            direction == self@.desired,
    {
        self.desired_dir
    }

    /// Whether a turn waits for the head to reach a tile.
    pub fn turn_pending(&self) -> (pending: bool)
        ensures
            pending == self@.pending,
    {
        self.should_change
    }
}

/// Random draws that `Cube::go_to_free_pos` makes in vain before it
/// searches the tiles in order.
pub const REROLL_LIMIT: u32 = 64;

impl Cube {
    /// Moves the food to a tile below the header row that no segment of
    /// `snake` meets. Tiles are drawn at random until one is free; after
    /// `REROLL_LIMIT` draws in vain the tiles are searched row by row, so
    /// that a free tile is found whenever there is one. Returns whether
    /// there is one; if not, the food rests on the tile drawn last.
    pub fn go_to_free_pos(&mut self, snake: &Snake) -> (placed: bool)
        ensures
            on_food_tile(final(self)@.at),
            final(self)@.colour == old(self)@.colour,
            placed == snake@.has_free_tile(),
            placed == !snake@.hits(final(self)@.at),
    {
        self.go_to_random_pos();
        let mut rolls: u32 = 0;
        while rolls < REROLL_LIMIT && snake.hit_food(self)
            invariant
                rolls <= REROLL_LIMIT,
                on_food_tile(self@.at),
                self@.colour == old(self)@.colour,
            decreases REROLL_LIMIT - rolls,
        {
            self.go_to_random_pos();
            rolls += 1;
        }
        proof {
            crate::grid::lemma_food_tiles(self@.at);
        }
        if !snake.hit_food(self) {
            return true;
        }
        let mut row: i32 = 1;
        while row < ROWS
            invariant
                1 <= row <= ROWS,
                on_food_tile(self@.at),
                self@.colour == old(self)@.colour,
                snake@.hits(self@.at),
                forall|c: int, r: int|
                    0 <= c < COLUMNS && 1 <= r < row ==> snake@.hits(#[trigger] tile_corner(c, r)),
            decreases ROWS - row,
        {
            let mut col: i32 = 0;
            while col < COLUMNS
                invariant
                    0 <= col <= COLUMNS,
                    1 <= row < ROWS,
                    on_food_tile(self@.at),
                    self@.colour == old(self)@.colour,
                    snake@.hits(self@.at),
                    forall|c: int, r: int|
                        0 <= c < COLUMNS && 1 <= r < row ==> snake@.hits(
                            #[trigger] tile_corner(c, r),
                        ),
                    forall|c: int|
                        0 <= c < col ==> snake@.hits(#[trigger] tile_corner(c, row as int)),
                decreases COLUMNS - col,
            {
                let probe: Cube = Cube::new(
                    Position { x: col * TILE_SIZE, y: row * TILE_SIZE },
                    self.colour,
                );
                if !snake.hit_food(&probe) {
                    self.go_to_tile(col, row);
                    assert(food_tile(col as int, row as int) && !snake@.hits(
                        tile_corner(col as int, row as int),
                    ));
                    return true;
                }
                col += 1;
            }
            row += 1;
        }
        false
    }
}

/// Between tiles a tick never changes the heading, whatever keys are held:
/// a key across the axis of travel is kept as a waiting turn, and a turn
/// that waits goes on waiting.
pub proof fn lemma_turn_waits_between_tiles(
    s: SnakeView,
    left: bool,
    right: bool,
    up: bool,
    down: bool,
)
    requires
        !on_tile(s.head()),
    ensures
        s.step(left, right, up, down).direction == s.direction,
        s.pending ==> s.step(left, right, up, down).pending,
        !left && !right && !up && !down ==> s.step(left, right, up, down).desired == s.desired,
        s.direction.horizontal() && (up || down) ==> {
            &&& s.step(left, right, up, down).pending
            &&& s.step(left, right, up, down).desired == if up {
                Direction::Up
            } else {
                Direction::Down
            }
        },
        !s.direction.horizontal() && (left || right) ==> {
            &&& s.step(left, right, up, down).pending
            &&& s.step(left, right, up, down).desired == if left {
                Direction::Left
            } else {
                Direction::Right
            }
        },
{
}

/// With the head exactly on a tile, a turn that waits after the keys were
/// read becomes the heading in that same tick, before the head moves; with
/// none waiting the heading stays.
pub proof fn lemma_turn_commits_on_tile(s: SnakeView, left: bool, right: bool, up: bool, down: bool)
    requires
        on_tile(s.head()),
    ensures
        !s.step(left, right, up, down).pending,
        s.latch(left, right, up, down).pending ==> s.step(left, right, up, down).direction
            == s.latch(left, right, up, down).desired,
        !s.latch(left, right, up, down).pending ==> s.step(left, right, up, down).direction
            == s.direction,
{
}

/// A tick never reverses the heading: it stays, or it turns onto the
/// other axis. The invariant of the snake is kept.
pub proof fn lemma_no_reversal(s: SnakeView, left: bool, right: bool, up: bool, down: bool)
    requires
        s.wf(),
    ensures
        s.step(left, right, up, down).wf(),
        s.step(left, right, up, down).direction != s.direction.opposite(),
        s.step(left, right, up, down).direction == s.direction || s.step(
            left,
            right,
            up,
            down,
        ).direction.crosses(s.direction),
{
}

/// The snake is a delay line: after a tick, every segment behind the head
/// is where the segment before it was, and the head is `MOVE_SPEED` pixels
/// further along the heading of that tick.
pub proof fn lemma_delay_line(s: SnakeView, left: bool, right: bool, up: bool, down: bool)
    requires
        s.wf(),
    ensures
        s.step(left, right, up, down).body.len() == s.body.len(),
        forall|i: int|
            1 <= i < s.body.len() ==> (#[trigger] s.step(left, right, up, down).body[i]).at
                == s.body[i - 1].at,
        s.step(left, right, up, down).head() == s.head().shifted(
            s.step(left, right, up, down).direction.dx() * MOVE_SPEED,
            s.step(left, right, up, down).direction.dy() * MOVE_SPEED,
        ),
{
}

/// A feeding lengthens the snake by the ticks that a tile takes to cross,
/// which is a third of the segments exempt from biting; the new segments
/// lie where the tail was and the old ones stay.
pub proof fn lemma_growth(s: SnakeView)
    requires
        s.wf(),
    ensures
        ticks_per_tile() == 8,
        exempt_segments() == 3 * ticks_per_tile(),
        s.grown().wf(),
        s.grown().body.len() == s.body.len() + ticks_per_tile(),
        forall|i: int| 0 <= i < s.body.len() ==> #[trigger] s.grown().body[i] == s.body[i],
        forall|i: int|
            s.body.len() <= i < s.grown().body.len() ==> (#[trigger] s.grown().body[i]).at
                == s.body.last().at,
{
}

/// A head outside the playfield is death, and the bounds are inclusive:
/// a snake too short to bite itself is dead exactly when its head is out
/// of bounds, so it lives with its head on the outermost pixels.
pub proof fn lemma_boundary_death(s: SnakeView)
    requires
        s.wf(),
    ensures
        s.head().x < 0 || s.head().x > W - TILE_SIZE ==> s.dead(),
        s.head().y < 0 || s.head().y > H - TILE_SIZE ==> s.dead(),
        s.body.len() <= exempt_segments() ==> s.dead() == out_of_bounds(s.head()),
        s.body.len() <= exempt_segments() && 0 <= s.head().x <= W - TILE_SIZE && 0 <= s.head().y
            <= H - TILE_SIZE ==> !s.dead(),
{
}

/// Travel never changes the length, so a snake too short to bite itself
/// stays so, and after any tick it is dead only by leaving the playfield.
pub proof fn lemma_short_snake_dies_only_out_of_bounds(
    s: SnakeView,
    left: bool,
    right: bool,
    up: bool,
    down: bool,
)
    requires
        s.wf(),
        s.body.len() <= exempt_segments(),
    ensures
        !s.step(left, right, up, down).bites_itself(),
        s.step(left, right, up, down).dead() == out_of_bounds(
            s.step(left, right, up, down).head(),
        ),
{
}

} // verus!
