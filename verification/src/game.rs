//! The session: owns the creature, the food cell, the score and the random
//! generator, and applies the per-tick food-consumption rules.

use vstd::prelude::*;

use crate::snake::Cell;
use crate::snake::Snake;
use crate::snake::SnakeV;
use crate::snake::MAX_DIM;
use crate::snake::SUBCELL;
use crate::snake::initial_snake;
use crate::snake::stepped;
use vstd::arithmetic::div_mod::lemma_div_is_ordered;

verus! {

/// Sub-units per tick added to the creature's speed each time food is eaten.
pub const SPEED_INCREMENT: u32 = 2;

/// Random draws food placement makes before it falls back to scanning the
/// grid for the first free cell, which keeps placement terminating even on a
/// nearly full grid.
pub const MAX_RANDOM_TRIES: u32 = 1000;

/// True if some cell of the food range (which leaves out the outermost row
/// and column) is free of the creature.
pub open spec fn has_free_cell(s: SnakeV) -> bool {
    exists|c: Cell|
        0 <= c.x < s.grid_width - 1 && 0 <= c.y < s.grid_height - 1 && !s.occupies(c)
}

#[verifier::external_type_specification]
#[verifier::external_body]
pub struct ExStdRng(rand::rngs::StdRng);

/// Relies on rand's `Rng::gen_range` over the half-open range `low..high`:
/// the sample is uniformly distributed, at least `low` and strictly below
/// `high`. The call panics only on an empty range, which the precondition
/// rules out.
#[verifier::external_body]
fn random_in_range(rng: &mut rand::rngs::StdRng, low: i32, high: i32) -> (r: i32)
    requires
        low < high,
    ensures
        low <= r < high,
{
    rand::Rng::gen_range(rng, low..high)
}

/// Relies on rand's `SeedableRng::from_entropy` to build a generator seeded
/// by the operating system; nothing is assumed of its output.
#[verifier::external_body]
fn entropy_rng() -> rand::rngs::StdRng {
    rand::SeedableRng::from_entropy()
}

/// The mathematical model of a session: the creature, the food cell and the
/// score. The random generator has no model; nothing is assumed of it.
#[verifier::ext_equal]
pub struct GameV {
    pub snake: SnakeV,
    pub food: Cell,
    pub score: int,
}

impl GameV {
    /// Well-formedness: the creature is well-formed, the grid is wide enough
    /// to place food, the food lies inside the food range (which leaves out
    /// the outermost row and column), and the score is a count.
    pub open spec fn wf(self) -> bool {
        &&& self.snake.wf()
        &&& 2 <= self.snake.grid_width
        &&& 2 <= self.snake.grid_height
        &&& 0 <= self.food.x < self.snake.grid_width - 1
        &&& 0 <= self.food.y < self.snake.grid_height - 1
        &&& 0 <= self.score
    }
}

/// A session: the creature, the current food cell, the score, and the random
/// source used to place food.
pub struct Game {
    pub snake: Snake,
    pub food: Cell,
    pub rng: rand::rngs::StdRng,
    pub score: usize,
}

impl View for Game {
    type V = GameV;

    open spec fn view(&self) -> GameV {
        GameV { snake: self.snake@, food: self.food, score: self.score as int }
    }
}

impl Game {
    /// A fresh session around the given random source: a one-segment creature
    /// centered on the grid, score zero, and food already placed on a free
    /// cell. With a seeded source the whole session is deterministic.
    pub fn new_with_rng(grid_width: usize, grid_height: usize, rng: rand::rngs::StdRng) -> (g:
        Game)
        requires
            2 <= grid_width <= MAX_DIM,
            2 <= grid_height <= MAX_DIM,
        ensures
            g@.wf(),
            g@.snake == initial_snake(grid_width as int, grid_height as int),
            g@.score == 0,
            !g@.snake.occupies(g@.food),
    {
        let mut g = Game {
            snake: Snake::new(grid_width, grid_height),
            food: Cell { x: 0, y: 0 },
            rng,
            score: 0,
        };
        proof {
            // The fresh creature sits at the grid center, so the corner cell
            // is free and food placement is owed a free cell.
            let ini = initial_snake(grid_width as int, grid_height as int);
            lemma_div_is_ordered(200, grid_width * SUBCELL, 2);
            lemma_div_is_ordered(100, ini.head_x, 100);
            assert(!ini.occupies(Cell { x: 0, y: 0 }));
            assert(has_free_cell(ini));
        }
        g.place_food();
        g
    }

    /// A fresh session with an operating-system-seeded random source.
    pub fn new(grid_width: usize, grid_height: usize) -> (g: Game)
        requires
            2 <= grid_width <= MAX_DIM,
            2 <= grid_height <= MAX_DIM,
        ensures
            g@.wf(),
            g@.snake == initial_snake(grid_width as int, grid_height as int),
            g@.score == 0,
            !g@.snake.occupies(g@.food),
    {
        Game::new_with_rng(grid_width, grid_height, entropy_rng())
    }

    /// The number of food items eaten so far.
    pub fn get_score(&self) -> (r: usize)
        ensures
            r == self@.score,
    {
        self.score
    }

    /// The number of cells the creature occupies, head included.
    pub fn get_size(&self) -> (r: isize)
        ensures
            r == self@.snake.size,
    {
        self.snake.size
    }

    /// Draws random cells inside the food range until one is free of the
    /// creature, then commits it as the food cell; after `MAX_RANDOM_TRIES`
    /// draws it scans the range for the first free cell instead. The creature
    /// and the score are untouched; whenever the range holds a free cell at
    /// all, the committed cell is a free one, and otherwise the food does not
    /// move.
    pub fn place_food(&mut self)
        requires
            old(self)@.snake.wf(),
            2 <= old(self)@.snake.grid_width,
            2 <= old(self)@.snake.grid_height,
        ensures
            final(self)@.snake == old(self)@.snake,
            final(self)@.score == old(self)@.score,
            has_free_cell(old(self)@.snake) ==> {
                &&& !final(self)@.snake.occupies(final(self)@.food)
                &&& 0 <= final(self)@.food.x < old(self)@.snake.grid_width - 1
                &&& 0 <= final(self)@.food.y < old(self)@.snake.grid_height - 1
            },
            !has_free_cell(old(self)@.snake) ==> final(self)@.food == old(self)@.food,
    {
        let high_x: i32 = (self.snake.grid_width - 1) as i32;
        let high_y: i32 = (self.snake.grid_height - 1) as i32;
        let mut tries: u32 = 0;
        while tries < MAX_RANDOM_TRIES
            invariant
                self@.snake == old(self)@.snake,
                self@.score == old(self)@.score,
                self@.food == old(self)@.food,
                self@.snake.wf(),
                2 <= self@.snake.grid_width,
                2 <= self@.snake.grid_height,
                high_x == self@.snake.grid_width - 1,
                high_y == self@.snake.grid_height - 1,
            decreases MAX_RANDOM_TRIES - tries,
        {
            let x: i32 = random_in_range(&mut self.rng, 0, high_x);
            let y: i32 = random_in_range(&mut self.rng, 0, high_y);
            if !self.snake.snake_cell(x, y) {
                self.food = Cell { x, y };
                return;
            }
            tries = tries + 1;
        }
        let mut y: i32 = 0;
        while y < high_y
            invariant
                self@.snake == old(self)@.snake,
                self@.score == old(self)@.score,
                self@.food == old(self)@.food,
                self@.snake.wf(),
                2 <= self@.snake.grid_width,
                2 <= self@.snake.grid_height,
                high_x == self@.snake.grid_width - 1,
                high_y == self@.snake.grid_height - 1,
                0 <= y <= high_y,
                forall|cx: i32, cy: i32|
                    0 <= cx < high_x && 0 <= cy < y ==> self@.snake.occupies(
                        Cell { x: cx, y: cy },
                    ),
            decreases high_y - y,
        {
            let mut x: i32 = 0;
            while x < high_x
                invariant
                    self@.snake == old(self)@.snake,
                    self@.score == old(self)@.score,
                    self@.food == old(self)@.food,
                    self@.snake.wf(),
                    2 <= self@.snake.grid_width,
                    2 <= self@.snake.grid_height,
                    high_x == self@.snake.grid_width - 1,
                    high_y == self@.snake.grid_height - 1,
                    0 <= y < high_y,
                    0 <= x <= high_x,
                    forall|cx: i32, cy: i32|
                        0 <= cx < high_x && 0 <= cy < y ==> self@.snake.occupies(
                            Cell { x: cx, y: cy },
                        ),
                    forall|cx: i32|
                        0 <= cx < x ==> self@.snake.occupies(Cell { x: cx, y: y }),
                decreases high_x - x,
            {
                if !self.snake.snake_cell(x, y) {
                    self.food = Cell { x, y };
                    return;
                }
                x = x + 1;
            }
            y = y + 1;
        }
        proof {
            if has_free_cell(self@.snake) {
                let c = choose|c: Cell|
                    0 <= c.x < self@.snake.grid_width - 1 && 0 <= c.y < self@.snake.grid_height - 1
                        && !self@.snake.occupies(c);
                assert(self@.snake.occupies(Cell { x: c.x, y: c.y }));
                assert(Cell { x: c.x, y: c.y } == c);
            }
        }
    }

    /// Places the food at `(x, y)` if that cell lies in the food range and is
    /// free of the creature; reports whether it did. Gives a session a known
    /// food cell, where `place_food` draws one at random.
    pub fn place_food_at(&mut self, x: i32, y: i32) -> (ok: bool)
        requires
            old(self)@.snake.wf(),
            2 <= old(self)@.snake.grid_width,
            2 <= old(self)@.snake.grid_height,
        ensures
            final(self)@.snake == old(self)@.snake,
            final(self)@.score == old(self)@.score,
            ok == (0 <= x < old(self)@.snake.grid_width - 1 && 0 <= y < old(self)@.snake.grid_height
                - 1 && !old(self)@.snake.occupies(Cell { x: x, y: y })),
            ok ==> final(self)@.food == (Cell { x: x, y: y }),
            !ok ==> final(self)@.food == old(self)@.food,
    {
        let high_x: i32 = (self.snake.grid_width - 1) as i32;
        let high_y: i32 = (self.snake.grid_height - 1) as i32;
        if 0 <= x && x < high_x && 0 <= y && y < high_y && !self.snake.snake_cell(x, y) {
            self.food = Cell { x, y };
            true
        } else {
            false
        }
    }

    /// One fixed-timestep tick. A dead creature makes this a no-op. Otherwise
    /// the creature advances one tick; if its head cell then matches the food
    /// cell, the score rises by one, new food is placed on a free cell, a
    /// growth is queued for the next crossing, and the speed rises by the
    /// fixed increment.
    pub fn update(&mut self)
        requires
            old(self)@.wf(),
            old(self)@.snake.alive ==> {
                &&& old(self)@.score < usize::MAX
                &&& old(self)@.snake.speed + SPEED_INCREMENT <= u32::MAX
                &&& old(self)@.snake.size < isize::MAX
            },
        ensures
            final(self)@.wf(),
            !old(self)@.snake.alive ==> final(self)@ == old(self)@,
            old(self)@.snake.alive ==> ({
                let s1 = stepped(old(self)@.snake);
                if s1.head_cell() == old(self)@.food {
                    &&& final(self)@.snake == (SnakeV {
                        growing: true,
                        speed: s1.speed + SPEED_INCREMENT,
                        ..s1
                    })
                    &&& final(self)@.score == old(self)@.score + 1
                    &&& has_free_cell(s1) ==> !final(self)@.snake.occupies(final(self)@.food)
                    &&& !has_free_cell(s1) ==> final(self)@.food == old(self)@.food
                } else {
                    &&& final(self)@.snake == s1
                    &&& final(self)@.score == old(self)@.score
                    &&& final(self)@.food == old(self)@.food
                }
            }),
    {
        if !self.snake.alive {
            return;
        }
        self.snake.update();
        let c = self.snake.current_cell();
        if self.food.x == c.x && self.food.y == c.y {
            self.score = self.score + 1;
            self.place_food();
            self.snake.grow_body();
            self.snake.speed = self.snake.speed + SPEED_INCREMENT;
        }
    }
}

} // verus!
