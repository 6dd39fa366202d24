//! One session of the game: the score, the four states and what a tick
//! does in each of them.

use vstd::prelude::*;
use crate::grid::{on_food_tile, out_of_bounds, Cell, Direction, Point, Position};
use crate::rng::random_in_range;
use crate::snake::{sprite_at, Cube, Snake, SnakeView, Sprite};
use crate::{FOOD_COLOUR, FPS, H, MOVE_SPEED, PLAYER_COLOUR, TILE_SIZE, W};

verus! {

/// Where a session stands.
#[derive(Clone, Copy, Debug, PartialEq, Eq, Structural)]
pub enum GameState {
    /// Before the first play-through.
    Starting,
    /// The snake travels.
    Playing,
    /// The play-through ended, won or lost.
    GameOver,
    /// The play-through rests.
    Paused,
}

/// The keys as one tick sees them.
#[derive(Clone, Copy, Debug, PartialEq, Eq, Structural)]
pub struct Input {
    /// The start key went down in this tick.
    pub space_pressed: bool,
    /// The left key is held.
    pub left: bool,
    /// The right key is held.
    pub right: bool,
    /// The up key is held.
    pub up: bool,
    /// The down key is held.
    pub down: bool,
}

/// What the renderer has to paint for one tick.
pub struct Frame {
    /// The food's rectangle, where the food is shown.
    pub food: Option<Sprite>,
    /// The snake's rectangles, head first, already moved by `offset`.
    pub snake: Vec<Sprite>,
    /// The shake of this tick, by which the texts move too.
    pub offset: (i32, i32),
    /// Whether the title line is shown.
    pub show_title: bool,
    /// Whether the subtitle line is shown.
    pub show_subtitle: bool,
    /// Whether the high score is shown.
    pub show_highscore: bool,
    /// Whether the score is shown.
    pub show_score: bool,
}

/// The mathematical value of a frame.
pub struct FrameView {
    pub food: Option<Sprite>,
    pub snake: Seq<Sprite>,
    pub offset: (int, int),
    pub show_title: bool,
    pub show_subtitle: bool,
    pub show_highscore: bool,
    pub show_score: bool,
}

impl View for Frame {
    type V = FrameView;

    open spec fn view(&self) -> FrameView {
        FrameView {
            food: self.food,
            snake: self.snake@,
            offset: (self.offset.0 as int, self.offset.1 as int),
            show_title: self.show_title,
            show_subtitle: self.show_subtitle,
            show_highscore: self.show_highscore,
            show_score: self.show_score,
        }
    }
}

/// The score at which the playfield counts as full: one point per tile.
pub open spec fn max_score() -> int {
    (W as int / TILE_SIZE as int) * (H as int / TILE_SIZE as int)
}

/// Ticks the screen shakes after a loss.
pub open spec fn shake_ticks() -> int {
    FPS as int / 6
}

/// Largest shake in pixels, on either axis and in either direction.
pub const MAX_JITTER: i32 = 2;

/// The shake drawn from `raw`: a tenth of it, rounded towards zero.
pub open spec fn jitter_of(raw: int) -> int {
    if raw >= 0 {
        raw / 10
    } else {
        -((-raw) / 10)
    }
}

/// Neither component of `offset` exceeds the largest shake.
pub open spec fn within_jitter(offset: (int, int)) -> bool {
    &&& -MAX_JITTER <= offset.0 <= MAX_JITTER
    &&& -MAX_JITTER <= offset.1 <= MAX_JITTER
}

/// `p` lies in the playfield or at most one tick of travel outside it.
pub open spec fn in_reach(p: Point) -> bool {
    &&& -MOVE_SPEED <= p.x <= W - TILE_SIZE + MOVE_SPEED
    &&& -MOVE_SPEED <= p.y <= H - TILE_SIZE + MOVE_SPEED
}

/// The snake that every play-through starts with.
pub open spec fn fresh_snake() -> SnakeView {
    SnakeView {
        body: seq![Cell { at: Point { x: W / 2, y: H / 2 }, colour: PLAYER_COLOUR }],
        direction: Direction::Right,
        desired: Direction::Right,
        pending: false,
    }
}

/// The mathematical value of a session.
pub struct GameView {
    pub state: GameState,
    pub score: int,
    pub highscore: int,
    /// Ticks the screen still shakes.
    pub shake: int,
    pub title: Seq<char>,
    pub subtitle: Seq<char>,
    pub snake: SnakeView,
    pub food: Cell,
}

impl GameView {
    /// What holds of a session at every moment, also in the middle of a
    /// tick.
    pub open spec fn sound(self) -> bool {
        &&& self.snake.wf()
        &&& 0 <= self.score <= max_score()
        &&& i32::MIN <= self.highscore <= i32::MAX
        &&& 0 <= self.shake <= shake_ticks()
        &&& forall|i: int|
            0 <= i < self.snake.body.len() ==> in_reach((#[trigger] self.snake.body[i]).at)
    }

    /// The invariant of a session between ticks: while a play-through is
    /// under way or rests, the snake is alive and the playfield not full.
    pub open spec fn wf(self) -> bool {
        &&& self.sound()
        &&& (self.state is Playing || self.state is Paused) ==> self.score < max_score()
            && !self.snake.dead()
    }

    /// The session with the food moved to `at`.
    pub open spec fn with_food(self, at: Point) -> GameView {
        GameView { food: Cell { at, colour: self.food.colour }, ..self }
    }

    /// A new play-through begins: no points, a fresh snake, the food at
    /// `food`.
    pub open spec fn restarted(self, food: Point) -> GameView {
        GameView { state: GameState::Playing, score: 0, snake: fresh_snake(), ..self }.with_food(
            food,
        )
    }

    /// The snake travelled for one tick under the held keys.
    pub open spec fn moved(self, input: Input) -> GameView {
        GameView { snake: self.snake.step(input.left, input.right, input.up, input.down), ..self }
    }

    /// The snake fed: it grew, a point was scored and the food moved to
    /// `food`.
    pub open spec fn eaten(self, food: Point) -> GameView {
        GameView { snake: self.snake.grown(), score: self.score + 1, ..self }.with_food(food)
    }

    /// In play, this tick's travel brings the snake onto the food.
    pub open spec fn feeds(self, input: Input) -> bool {
        self.state is Playing && self.moved(input).snake.hits(self.food.at)
    }

    /// In play, this tick's feeding fills the playfield.
    pub open spec fn wins(self, input: Input) -> bool {
        self.feeds(input) && self.score + 1 >= max_score()
    }

    /// The start key begins a new play-through in this tick.
    pub open spec fn restarts(self, input: Input) -> bool {
        (self.state is Starting || self.state is GameOver) && input.space_pressed
    }

    /// This tick moves the food.
    pub open spec fn relocates(self, input: Input) -> bool {
        self.restarts(input) || self.feeds(input)
    }

    /// The high score after a play-through stopped with `self.score`
    /// points, lost or paused.
    pub open spec fn best(self) -> int {
        if self.score > self.highscore {
            self.score
        } else {
            self.highscore
        }
    }

    /// The play-through is won.
    pub open spec fn won(self) -> GameView {
        GameView {
            state: GameState::GameOver,
            subtitle: "You Won!"@,
            title: "Press Space to Restart."@,
            highscore: self.score,
            ..self
        }
    }

    /// The play-through rests.
    pub open spec fn paused(self) -> GameView {
        GameView {
            state: GameState::Paused,
            subtitle: "Game Paused"@,
            title: "Press Space to Resume"@,
            highscore: self.best(),
            ..self
        }
    }

    /// The play-through is lost.
    pub open spec fn lost(self) -> GameView {
        GameView {
            state: GameState::GameOver,
            shake: shake_ticks(),
            subtitle: "Game Over."@,
            title: "Press Space to Start"@,
            highscore: self.best(),
            ..self
        }
    }

    /// The end of a tick of play that did not win: the start key pauses,
    /// and death, which is looked at last, ends the play-through even then.
    pub open spec fn settled(self, input: Input) -> GameView {
        let rested = if input.space_pressed {
            self.paused()
        } else {
            self
        };
        if rested.snake.dead() {
            rested.lost()
        } else {
            rested
        }
    }

    /// The score that the end of such a tick sets as the new high score,
    /// if it sets one.
    pub open spec fn settled_record(self, input: Input) -> Option<int> {
        if (input.space_pressed || self.snake.dead()) && self.score > self.highscore {
            Some(self.score)
        } else {
            None
        }
    }

    /// One tick of play: the snake travels; if it reaches the food it
    /// feeds, and the food moves to `food`; then the play-through is won,
    /// or else paused or lost or neither.
    pub open spec fn played(self, input: Input, food: Point) -> GameView {
        let moved = self.moved(input);
        if moved.snake.hits(moved.food.at) {
            let fed = moved.eaten(food);
            if fed.score < max_score() {
                fed.settled(input)
            } else {
                fed.won()
            }
        } else {
            moved.settled(input)
        }
    }

    /// The session one tick later, where `food` is the place that the
    /// food is moved to if this tick moves it.
    pub open spec fn next(self, input: Input, food: Point) -> GameView {
        match self.state {
            GameState::Starting | GameState::GameOver => if input.space_pressed {
                self.restarted(food)
            } else {
                self
            },
            GameState::Playing => self.played(input, food),
            GameState::Paused => if input.space_pressed {
                GameView { state: GameState::Playing, ..self }
            } else {
                self
            },
        }
    }

    /// The score that this tick asks to be appended to the high-score
    /// record, if any: the score of a win always, that of a pause or a loss
    /// if it beats the high score.
    pub open spec fn record(self, input: Input) -> Option<int> {
        if self.state is Playing {
            let moved = self.moved(input);
            if moved.snake.hits(moved.food.at) {
                let fed = moved.eaten(moved.food.at);
                if fed.score < max_score() {
                    fed.settled_record(input)
                } else {
                    Some(fed.score)
                }
            } else {
                moved.settled_record(input)
            }
        } else {
            None
        }
    }

    /// The screen shakes in this tick's frame.
    pub open spec fn shaking(self) -> bool {
        (self.state is GameOver || self.state is Paused) && self.shake > 0
    }

    /// The session after a frame was drawn: a shake uses up one tick of
    /// shaking.
    pub open spec fn drawn(self) -> GameView {
        if self.shaking() {
            GameView { shake: self.shake - 1, ..self }
        } else {
            self
        }
    }

    /// The frame of a session whose shake is `offset`. The start screen
    /// shows the title alone; play shows food, snake and score. Neither
    /// shakes. A paused or ended play-through shows everything, the snake
    /// and the texts moved by `offset`.
    pub open spec fn frame(self, offset: (int, int)) -> FrameView {
        match self.state {
            GameState::Starting => FrameView {
                food: None,
                snake: Seq::empty(),
                offset: (0, 0),
                show_title: true,
                show_subtitle: false,
                show_highscore: false,
                show_score: false,
            },
            GameState::Playing => FrameView {
                food: Some(sprite_at(self.food, 0, 0)),
                snake: Seq::new(self.snake.body.len(), |i: int| sprite_at(self.snake.body[i], 0, 0)),
                offset: (0, 0),
                show_title: false,
                show_subtitle: false,
                show_highscore: false,
                show_score: true,
            },
            _ => FrameView {
                food: Some(sprite_at(self.food, 0, 0)),
                snake: Seq::new(
                    self.snake.body.len(),
                    |i: int| sprite_at(self.snake.body[i], offset.0, offset.1),
                ),
                offset,
                show_title: true,
                show_subtitle: true,
                show_highscore: true,
                show_score: true,
            },
        }
    }
}

/// A session: the state, the scores, the texts on show, the snake and the
/// food.
pub struct Game {
    state: GameState,
    score: i32,
    highscore: i32,
    screen_shake: u32,
    main_text: &'static str,
    subtitle_text: &'static str,
    snake: Snake,
    food: Cube,
}

impl View for Game {
    type V = GameView;

    closed spec fn view(&self) -> GameView {
        GameView {
            state: self.state,
            score: self.score as int,
            highscore: self.highscore as int,
            shake: self.screen_shake as int,
            title: self.main_text@,
            subtitle: self.subtitle_text@,
            snake: self.snake@,
            food: self.food@,
        }
    }
}

/// The shake drawn from `raw`: a tenth of it, rounded towards zero.
pub fn jitter(raw: i32) -> (offset: i32)
    requires
        -26 <= raw < 26,
    ensures
        offset == jitter_of(raw as int),
        -MAX_JITTER <= offset <= MAX_JITTER,
{
    raw / 10
}

impl Game {
    /// The invariant of every session this module hands out.
    pub open spec fn wf(&self) -> bool {
        self@.wf()
    }

    /// A session on the start screen that knows `highscore` as the score
    /// to beat.
    pub fn new(highscore: i32) -> (game: Game)
        ensures
            game.wf(),
            game@ == (GameView {
                state: GameState::Starting,
                score: 0,
                highscore: highscore as int,
                shake: 0,
                title: "Press Space to Start"@,
                subtitle: ""@,
                snake: fresh_snake(),
                food: Cell { at: Point { x: 0, y: 0 }, colour: FOOD_COLOUR },
            }),
    {
        Game {
            state: GameState::Starting,
            score: 0,
            highscore,
            screen_shake: 0,
            main_text: "Press Space to Start",
            subtitle_text: "",
            snake: Snake::new(),
            food: Cube::new(Position { x: 0, y: 0 }, FOOD_COLOUR),
        }
    }

    /// A session put together from its parts, if they make one: the score
    /// lies between nothing and the number of tiles, the shake is no longer
    /// than a loss sets it, every segment of the snake lies in the
    /// playfield or one tick of travel outside it, and while the
    /// play-through is under way or rests the snake is alive and the
    /// playfield not full.
    pub fn from_parts(
        state: GameState,
        score: i32,
        highscore: i32,
        screen_shake: u32,
        main_text: &'static str,
        subtitle_text: &'static str,
        snake: Snake,
        food: Cube,
    ) -> (game: Option<Game>)
        requires
            snake.wf(),
        ensures
            game is Some <==> (GameView {
                state,
                score: score as int,
                highscore: highscore as int,
                shake: screen_shake as int,
                title: main_text@,
                subtitle: subtitle_text@,
                snake: snake@,
                food: food@,
            }).wf(),
            game matches Some(game) ==> game.wf() && game@ == (GameView {
                state,
                score: score as int,
                highscore: highscore as int,
                shake: screen_shake as int,
                title: main_text@,
                subtitle: subtitle_text@,
                snake: snake@,
                food: food@,
            }),
    {
        proof {
            lemma_max_score();
        }
        let columns: i32 = W / TILE_SIZE;
        let rows: i32 = H / TILE_SIZE;
        if score < 0 || score > columns * rows || screen_shake > FPS / 6 {
            return None;
        }
        let mut i: usize = 0;
        while i < snake.len()
            invariant
                forall|j: int|
                    0 <= j < i && j < snake@.body.len() ==> in_reach(
                        (#[trigger] snake@.body[j]).at,
                    ),
            decreases snake@.body.len() - i,
        {
            match snake.segment(i) {
                Some(place) => {
                    if place.x < -MOVE_SPEED || place.x > W - TILE_SIZE + MOVE_SPEED || place.y
                        < -MOVE_SPEED || place.y > H - TILE_SIZE + MOVE_SPEED {
                        assert(!in_reach(snake@.body[i as int].at));
                        return None;
                    }
                },
                None => {},
            }
            i += 1;
        }
        match state {
            GameState::Playing | GameState::Paused => {
                if score >= columns * rows || snake.is_dead() {
                    return None;
                }
            },
            _ => {},
        }
        Some(Game { state, score, highscore, screen_shake, main_text, subtitle_text, snake, food })
    }

    /// Begins a play-through: no points, a fresh snake, the food on a tile
    /// away from it.
    fn restart(&mut self)
        requires
            old(self)@.sound(),
        ensures
            final(self).wf(),
            final(self)@ == old(self)@.restarted(final(self)@.food.at),
            on_food_tile(final(self)@.food.at),
            !final(self)@.snake.hits(final(self)@.food.at),
    {
        self.score = 0;
        self.state = GameState::Playing;
        self.snake = Snake::new();
        proof {
            lemma_fresh_snake_leaves_room();
        }
        self.food.go_to_free_pos(&self.snake);
    }

    /// The snake travels for one tick under the held keys.
    fn travel(&mut self, input: Input)
        requires
            old(self).wf(),
            old(self)@.state is Playing,
        ensures
            final(self)@ == old(self)@.moved(input),
            final(self)@.sound(),
    {
        let ghost before = self.snake@;
        self.snake.update(input.left, input.right, input.up, input.down);
        proof {
            lemma_step_stays_in_reach(before, input.left, input.right, input.up, input.down);
        }
    }

    /// The snake feeds: it grows, a point is scored and the food moves, to
    /// a free tile unless the playfield is full by now, which wins the
    /// play-through. Returns whether it is won.
    fn eat(&mut self) -> (won: bool)
        requires
            old(self)@.sound(),
            old(self)@.score < max_score(),
        ensures
            final(self)@.sound(),
            won == (old(self)@.score + 1 >= max_score()),
            !won ==> final(self)@ == old(self)@.eaten(final(self)@.food.at),
            won ==> final(self)@ == old(self)@.eaten(final(self)@.food.at).won(),
            on_food_tile(final(self)@.food.at),
            !won ==> final(self)@.snake.hits(final(self)@.food.at)
                == !final(self)@.snake.has_free_tile(),
    {
        let ghost before = self.snake@;
        self.snake.grow();
        proof {
            lemma_growth_stays_in_reach(before);
            lemma_max_score();
        }
        self.score += 1;
        let columns: i32 = W / TILE_SIZE;
        let rows: i32 = H / TILE_SIZE;
        if self.score < columns * rows {
            self.food.go_to_free_pos(&self.snake);
            false
        } else {
            self.food.go_to_random_pos();
            self.state = GameState::GameOver;
            self.subtitle_text = "You Won!";
            self.main_text = "Press Space to Restart.";
            // New high score
            self.highscore = self.score;
            true
        }
    }

    /// Ends a tick of play that did not win: the start key pauses, and
    /// death ends the play-through. Returns the new high score, if one was
    /// set.
    fn settle(&mut self, input: Input) -> (record: Option<i32>)
        requires
            old(self)@.sound(),
            old(self)@.state is Playing,
            old(self)@.score < max_score(),
        ensures
            final(self).wf(),
            final(self)@ == old(self)@.settled(input),
            match record {
                Some(score) => old(self)@.settled_record(input) == Some(score as int),
                None => old(self)@.settled_record(input) is None,
            },
    {
        let mut record: Option<i32> = None;
        // Pause checks
        if input.space_pressed {
            self.state = GameState::Paused;
            self.subtitle_text = "Game Paused";
            self.main_text = "Press Space to Resume";
            if self.score > self.highscore {
                // New high score
                self.highscore = self.score;
                record = Some(self.score);
            }
        }
        // Game over checks
        if self.snake.is_dead() {
            self.state = GameState::GameOver;
            self.screen_shake = FPS / 6;
            self.subtitle_text = "Game Over.";
            self.main_text = "Press Space to Start";
            if self.score > self.highscore {
                // New high score
                self.highscore = self.score;
                record = Some(self.score);
            }
        }
        record
    }

    /// One tick. On the start screen and after a play-through the start
    /// key begins a new one. In play the snake travels and may feed, win,
    /// be paused or die, in that order; a win ends the tick. While paused
    /// the start key resumes.
    ///
    /// Returns the score to append to the high-score record, if this tick
    /// set one. Where the tick moves the food, the place is drawn at
    /// random, so the contract speaks of the place that was drawn.
    pub fn update(&mut self, input: Input) -> (record: Option<i32>)
        requires
            old(self).wf(),
        ensures
            final(self).wf(),
            final(self)@ == old(self)@.next(input, final(self)@.food.at),
            match record {
                Some(score) => old(self)@.record(input) == Some(score as int),
                None => old(self)@.record(input) is None,
            },
            old(self)@.relocates(input) ==> on_food_tile(final(self)@.food.at),
            old(self)@.restarts(input) ==> !final(self)@.snake.hits(final(self)@.food.at),
            old(self)@.feeds(input) && !old(self)@.wins(input) ==> final(self)@.snake.hits(
                final(self)@.food.at,
            ) == !final(self)@.snake.has_free_tile(),
            old(self)@.wins(input) || final(self)@.highscore >= old(self)@.highscore,
    {
        match self.state {
            GameState::Starting | GameState::GameOver => {
                if input.space_pressed {
                    self.restart();
                }
                None
            },
            GameState::Playing => {
                self.travel(input);
                // Food collision check
                if self.snake.hit_food(&self.food) {
                    if self.eat() {
                        Some(self.score)
                    } else {
                        self.settle(input)
                    }
                } else {
                    self.settle(input)
                }
            },
            GameState::Paused => {
                if input.space_pressed {
                    self.state = GameState::Playing;
                }
                None
            },
        }
    }

    /// The frame of this tick for a shake of `offset`.
    pub fn frame(&self, offset: (i32, i32)) -> (frame: Frame)
        requires
            self.wf(),
            within_jitter((offset.0 as int, offset.1 as int)),
        ensures
            frame@ == self@.frame((offset.0 as int, offset.1 as int)),
    {
        match self.state {
            GameState::Starting => Frame {
                food: None,
                snake: Vec::new(),
                offset: (0, 0),
                show_title: true,
                show_subtitle: false,
                show_highscore: false,
                show_score: false,
            },
            GameState::Playing => {
                let snake: Vec<Sprite> = self.snake.draw((0, 0));
                assert(snake@ =~= self@.frame((offset.0 as int, offset.1 as int)).snake);
                Frame {
                    food: Some(self.food.draw()),
                    snake,
                    offset: (0, 0),
                    show_title: false,
                    show_subtitle: false,
                    show_highscore: false,
                    show_score: true,
                }
            },
            GameState::GameOver | GameState::Paused => {
                let snake: Vec<Sprite> = self.snake.draw(offset);
                assert(snake@ =~= self@.frame((offset.0 as int, offset.1 as int)).snake);
                Frame {
                    food: Some(self.food.draw()),
                    snake,
                    offset,
                    show_title: true,
                    show_subtitle: true,
                    show_highscore: true,
                    show_score: true,
                }
            },
        }
    }

    /// The frame of this tick. While the screen shakes, a shake is drawn
    /// at random for each axis and one tick of shaking is used up.
    pub fn draw(&mut self) -> (frame: Frame)
        requires
            old(self).wf(),
        ensures
            final(self).wf(),
            final(self)@ == old(self)@.drawn(),
            frame@ == old(self)@.frame(frame@.offset),
            within_jitter(frame@.offset),
            !old(self)@.shaking() ==> frame@.offset == (0int, 0int),
    {
        let mut offs: (i32, i32) = (0, 0);
        match self.state {
            GameState::GameOver | GameState::Paused => {
                if self.screen_shake > 0 {
                    offs.0 = jitter(random_in_range(-26, 26));
                    offs.1 = jitter(random_in_range(-26, 26));
                    self.screen_shake -= 1;
                }
            },
            _ => {},
        }
        self.frame(offs)
    }

    /// Where the session stands.
    pub fn state(&self) -> (state: GameState)
        ensures
            state == self@.state,
    {
        self.state
    }

    /// Points of the play-through.
    pub fn score(&self) -> (score: i32)
        ensures
            score == self@.score,
    {
        self.score
    }

    /// The score to beat.
    pub fn highscore(&self) -> (highscore: i32)
        ensures
            highscore == self@.highscore,
    {
        self.highscore
    }

    /// Ticks the screen still shakes.
    pub fn screen_shake(&self) -> (ticks: u32)
        ensures
            ticks == self@.shake,
    {
        self.screen_shake
    }

    /// The title line.
    pub fn main_text(&self) -> (text: &'static str)
        ensures
            text@ == self@.title,
    {
        self.main_text
    }

    /// The subtitle line.
    pub fn subtitle_text(&self) -> (text: &'static str)
        ensures
            text@ == self@.subtitle,
    {
        self.subtitle_text
    }

    /// The snake.
    pub fn snake(&self) -> (snake: &Snake)
        ensures
            snake@ == self@.snake,
    {
        &self.snake
    }

    /// The food.
    pub fn food(&self) -> (food: Cube)
        ensures
            food@ == self@.food,
    {
        self.food
    }
}

/// The playfield has 440 tiles.
pub proof fn lemma_max_score()
    ensures
        max_score() == 440,
{
    assert(W as int / TILE_SIZE as int == 22);
    assert(H as int / TILE_SIZE as int == 20);
}

/// The snake that a play-through starts with leaves tiles free for the
/// food.
pub proof fn lemma_fresh_snake_leaves_room()
    ensures
        fresh_snake().has_free_tile(),
{
    let corner = crate::grid::tile_corner(0, 1);
    assert(crate::grid::food_tile(0, 1));
    assert(!fresh_snake().hits(corner));
}

/// A snake whose head is inside the playfield, and whose segments are all
/// in reach, has all its segments in reach after a tick of travel.
pub proof fn lemma_step_stays_in_reach(s: SnakeView, left: bool, right: bool, up: bool, down: bool)
    requires
        s.wf(),
        !out_of_bounds(s.head()),
        forall|i: int| 0 <= i < s.body.len() ==> in_reach((#[trigger] s.body[i]).at),
    ensures
        forall|i: int|
            0 <= i < s.body.len() ==> in_reach(
                (#[trigger] s.step(left, right, up, down).body[i]).at,
            ),
{
    let t = s.step(left, right, up, down);
    assert forall|i: int| 0 <= i < s.body.len() implies in_reach((#[trigger] t.body[i]).at) by {
        if i > 0 {
            assert(t.body[i].at == s.body[i - 1].at);
        }
    }
}

/// A snake whose segments are all in reach has them all in reach after a
/// feeding.
pub proof fn lemma_growth_stays_in_reach(s: SnakeView)
    requires
        s.wf(),
        forall|i: int| 0 <= i < s.body.len() ==> in_reach((#[trigger] s.body[i]).at),
    ensures
        forall|i: int|
            0 <= i < s.grown().body.len() ==> in_reach((#[trigger] s.grown().body[i]).at),
{
    assert forall|i: int| 0 <= i < s.grown().body.len() implies in_reach(
        (#[trigger] s.grown().body[i]).at,
    ) by {
        if i >= s.body.len() {
            assert(s.grown().body[i].at == s.body[s.body.len() - 1].at);
        } else {
            assert(s.grown().body[i] == s.body[i]);
        }
    }
}

/// A feeding that brings the score to the number of tiles ends the
/// play-through as won, whatever else the tick holds: the state is
/// `GameOver`, the subtitle tells of the win, the high score is set to the
/// score and that score is handed out for the record.
pub proof fn lemma_win(g: GameView, input: Input, food: Point)
    requires
        g.wf(),
        g.wins(input),
    ensures
        g.next(input, food).state is GameOver,
        g.next(input, food).subtitle == "You Won!"@,
        g.next(input, food).title == "Press Space to Restart."@,
        g.next(input, food).score == max_score(),
        g.next(input, food).highscore == g.next(input, food).score,
        g.record(input) == Some(max_score()),
{
}

/// The start key does nothing to a tick of play but pause it: snake, food
/// and score come out as they would without the key, and unless the tick
/// wins or kills the session is paused.
pub proof fn lemma_pause_changes_nothing(g: GameView, input: Input, food: Point)
    requires
        g.wf(),
        g.state is Playing,
        input.space_pressed,
    ensures
        g.next(input, food).snake == g.next(Input { space_pressed: false, ..input }, food).snake,
        g.next(input, food).food == g.next(Input { space_pressed: false, ..input }, food).food,
        g.next(input, food).score == g.next(Input { space_pressed: false, ..input }, food).score,
        g.next(input, food).state is Paused || g.next(input, food).state is GameOver,
        g.next(input, food).state is Paused <==> !g.wins(input) && !g.next(
            input,
            food,
        ).snake.dead(),
{
}

/// A paused session rests: a tick leaves snake, food, score and high score
/// as they are, and the start key, and nothing else, resumes play.
pub proof fn lemma_paused_session_rests(g: GameView, input: Input, food: Point)
    requires
        g.state is Paused,
    ensures
        g.next(input, food).snake == g.snake,
        g.next(input, food).food == g.food,
        g.next(input, food).score == g.score,
        g.next(input, food).highscore == g.highscore,
        g.next(input, food).state == if input.space_pressed {
            GameState::Playing
        } else {
            GameState::Paused
        },
        g.record(input) is None,
{
}

/// Pausing and resuming loses nothing: if the start key pauses a tick of
/// play and a later start key resumes it, play goes on with the snake,
/// the food and the score that the pausing tick left.
pub proof fn lemma_pause_resume(g: GameView, pause: Input, resume: Input, food: Point)
    requires
        g.wf(),
        g.state is Playing,
        pause.space_pressed,
        resume.space_pressed,
        g.next(pause, food).state is Paused,
    ensures
        g.next(pause, food).next(resume, food).state is Playing,
        g.next(pause, food).next(resume, food).snake == g.next(pause, food).snake,
        g.next(pause, food).next(resume, food).food == g.next(pause, food).food,
        g.next(pause, food).next(resume, food).score == g.next(pause, food).score,
{
}

/// The high score never falls, as long as it is a score that a
/// play-through can reach.
pub proof fn lemma_highscore_never_falls(g: GameView, input: Input, food: Point)
    requires
        g.wf(),
        g.highscore <= max_score(),
    ensures
        g.next(input, food).highscore >= g.highscore,
        g.next(input, food).highscore <= max_score(),
        g.record(input) matches Some(score) ==> score == g.next(input, food).highscore,
{
}

/// A tick keeps the invariant of the session, wherever the food lands.
pub proof fn lemma_next_keeps_invariant(g: GameView, input: Input, food: Point)
    requires
        g.wf(),
    ensures
        g.next(input, food).wf(),
{
    lemma_max_score();
    if g.state is Playing {
        lemma_step_stays_in_reach(g.snake, input.left, input.right, input.up, input.down);
        lemma_growth_stays_in_reach(g.moved(input).snake);
    }
}

} // verus!
