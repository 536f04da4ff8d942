//! The creature state machine: direction, fixed-point head position, body
//! segments, growth and self-collision.
//!
//! The head moves in integer sub-cell units (`SUBCELL` units per grid cell)
//! and wraps toroidally. Body bookkeeping and collision detection happen only
//! when the truncated integer grid cell of the head changes.

use vstd::prelude::*;
use vstd::arithmetic::div_mod::lemma_div_pos_is_pos;
use vstd::arithmetic::div_mod::lemma_fundamental_div_mod;
use vstd::arithmetic::div_mod::lemma_mod_division_less_than_divisor;
use vstd::arithmetic::div_mod::lemma_mod_multiples_vanish;
use vstd::arithmetic::div_mod::lemma_multiply_divide_lt;

verus! {

/// Number of position sub-units per grid cell. A speed of `n` sub-units per
/// tick advances the head by `n / SUBCELL` of a cell each tick.
pub const SUBCELL: u32 = 100;

/// Speed of a freshly created creature, in sub-units per tick.
pub const INITIAL_SPEED: u32 = 10;

/// Largest grid dimension, in cells, that keeps every sub-unit position
/// within `u32` and every cell coordinate within `i32`.
pub const MAX_DIM: usize = 42_949_672;

/// A cardinal movement direction.
#[derive(Debug, Clone, Copy, PartialEq, Eq, Structural)]
pub enum Direction {
    Up,
    Down,
    Left,
    Right,
}

/// The direction 180 degrees from `d`.
pub open spec fn opposite_spec(d: Direction) -> Direction {
    match d {
        Direction::Up => Direction::Down,
        Direction::Down => Direction::Up,
        Direction::Left => Direction::Right,
        Direction::Right => Direction::Left,
    }
}

/// Returns the direction opposite to `d`.
pub fn opposite(d: Direction) -> (r: Direction)
    ensures
        r == opposite_spec(d),
{
    match d {
        Direction::Up => Direction::Down,
        Direction::Down => Direction::Up,
        Direction::Left => Direction::Right,
        Direction::Right => Direction::Left,
    }
}

/// An integer grid cell.
#[derive(Debug, Clone, Copy, PartialEq, Eq, Structural)]
pub struct Cell {
    pub x: i32,
    pub y: i32,
}

/// The mathematical model of a creature: every field as an unbounded integer
/// or a sequence, so contracts and lemmas speak of plain arithmetic.
#[verifier::ext_equal]
pub struct SnakeV {
    pub direction: Direction,
    /// Sub-units the head advances per tick.
    pub speed: int,
    /// Number of cells occupied, head included.
    pub size: int,
    pub alive: bool,
    /// Head position in sub-units, within `[0, grid_width * SUBCELL)`.
    pub head_x: int,
    /// Head position in sub-units, within `[0, grid_height * SUBCELL)`.
    pub head_y: int,
    /// Trailing body cells, oldest first; the head cell is not among them.
    pub body: Seq<Cell>,
    /// Set when food was eaten; consumed at the next cell crossing.
    pub growing: bool,
    pub grid_width: int,
    pub grid_height: int,
}

impl SnakeV {
    /// The head position and the grid dimensions are in range and every
    /// bounded field fits its executable type.
    pub open spec fn bounds_ok(self) -> bool {
        &&& 1 <= self.grid_width <= MAX_DIM as int
        &&& 1 <= self.grid_height <= MAX_DIM as int
        &&& 0 <= self.head_x < self.grid_width * SUBCELL
        &&& 0 <= self.head_y < self.grid_height * SUBCELL
        &&& 0 <= self.speed <= u32::MAX
    }

    /// The grid cell the head currently occupies.
    pub open spec fn head_cell(self) -> Cell {
        Cell { x: (self.head_x / (SUBCELL as int)) as i32, y: (self.head_y / (SUBCELL as int)) as i32 }
    }

    /// True if cell `c` is the head cell or a body segment.
    pub open spec fn occupies(self, c: Cell) -> bool {
        c == self.head_cell() || self.body.contains(c)
    }

    /// No two occupied cells coincide: the head cell is outside the body and
    /// the body segments are pairwise different.
    pub open spec fn distinct(self) -> bool {
        &&& !self.body.contains(self.head_cell())
        &&& forall|i: int, j: int|
            0 <= i < j < self.body.len() ==> self.body[i] != self.body[j]
    }

    /// Well-formedness: bounds hold, the body length matches the size, every
    /// segment lies on the grid, and while alive no cell is occupied twice.
    pub open spec fn wf(self) -> bool {
        &&& self.bounds_ok()
        &&& 1 <= self.size
        &&& self.body.len() == self.size - 1
        &&& forall|i: int|
            0 <= i < self.body.len() ==> {
                &&& 0 <= (#[trigger] self.body[i]).x < self.grid_width
                &&& 0 <= self.body[i].y < self.grid_height
            }
        &&& self.alive ==> self.distinct()
    }
}

/// `(pos + delta) mod m`, the toroidal wrap of a forward step.
pub open spec fn wrap_add(pos: int, delta: int, m: int) -> int
    recommends
        m > 0,
{
    (pos + delta) % m
}

/// `(pos - delta) mod m`, computed without going negative: the backward step
/// of the toroidal wrap.
pub open spec fn wrap_sub(pos: int, delta: int, m: int) -> int
    recommends
        m > 0,
{
    (pos + m - delta % m) % m
}

/// The head position after one tick of movement along `v.direction`.
pub open spec fn moved_head(v: SnakeV) -> (int, int) {
    let mx = v.grid_width * SUBCELL;
    let my = v.grid_height * SUBCELL;
    match v.direction {
        Direction::Up => (v.head_x, wrap_sub(v.head_y, v.speed, my)),
        Direction::Down => (v.head_x, wrap_add(v.head_y, v.speed, my)),
        Direction::Left => (wrap_sub(v.head_x, v.speed, mx), v.head_y),
        Direction::Right => (wrap_add(v.head_x, v.speed, mx), v.head_y),
    }
}

/// The creature after the head has moved but before any body bookkeeping.
pub open spec fn moved_view(v: SnakeV) -> SnakeV {
    SnakeV { head_x: moved_head(v).0, head_y: moved_head(v).1, ..v }
}

/// True if this tick's movement carries the head into a different grid cell.
pub open spec fn crossing(v: SnakeV) -> bool {
    moved_view(v).head_cell() != v.head_cell()
}

/// The body after a cell crossing from cell `prev`: the old head cell joins
/// the tail; unless the creature is growing, the oldest segment leaves.
pub open spec fn body_after(body: Seq<Cell>, prev: Cell, growing: bool) -> Seq<Cell> {
    if growing {
        body.push(prev)
    } else {
        body.push(prev).remove(0)
    }
}

/// One full tick of the creature: move the head, and on a cell crossing
/// update the body, consume a pending growth, and detect self-collision.
pub open spec fn stepped(v: SnakeV) -> SnakeV {
    let moved = moved_view(v);
    if moved.head_cell() == v.head_cell() {
        moved
    } else {
        let nb = body_after(v.body, v.head_cell(), v.growing);
        SnakeV {
            body: nb,
            growing: false,
            size: if v.growing { v.size + 1 } else { v.size },
            alive: if nb.contains(moved.head_cell()) { false } else { v.alive },
            ..moved
        }
    }
}

/// The creature a session starts with: a single segment, centered, moving up
/// at the initial speed.
pub open spec fn initial_snake(w: int, h: int) -> SnakeV {
    SnakeV {
        direction: Direction::Up,
        speed: INITIAL_SPEED as int,
        size: 1,
        alive: true,
        head_x: w * SUBCELL / 2,
        head_y: h * SUBCELL / 2,
        body: Seq::empty(),
        growing: false,
        grid_width: w,
        grid_height: h,
    }
}

/// The direction after a change request: `input` is taken unless the creature
/// is longer than one cell and currently runs along `opp`.
pub open spec fn steered(v: SnakeV, input: Direction, opp: Direction) -> SnakeV {
    if v.direction != opp || v.size == 1 {
        SnakeV { direction: input, ..v }
    } else {
        v
    }
}

/// A quotient by a positive constant stays below `b` when the dividend stays
/// below `b * c`.
proof fn lemma_div_bound(x: int, c: int, b: int)
    requires
        0 < c,
        0 <= x < b * c,
    ensures
        0 <= x / c < b,
{
    lemma_div_pos_is_pos(x, c);
    assert(b * c == c * b) by (nonlinear_arith);
    lemma_multiply_divide_lt(x, c, b);
}

/// Toroidal wrap keeps a position inside `[0, m)`.
pub proof fn lemma_wrap_in_range(pos: int, delta: int, m: int)
    requires
        m > 0,
    ensures
        0 <= wrap_add(pos, delta, m) < m,
        0 <= wrap_sub(pos, delta, m) < m,
{
    lemma_mod_division_less_than_divisor(pos + delta, m);
    lemma_mod_division_less_than_divisor(delta, m);
    lemma_mod_division_less_than_divisor(pos + m - delta % m, m);
}

/// The backward wrap is exactly the Euclidean remainder of `pos - delta`:
/// stepping backwards over an edge reappears at the far edge, never at a
/// negative coordinate.
pub proof fn lemma_wrap_sub_is_mod(pos: int, delta: int, m: int)
    requires
        m > 0,
    ensures
        wrap_sub(pos, delta, m) == (pos - delta) % m,
{
    let d = delta % m;
    let q = delta / m;
    lemma_fundamental_div_mod(delta, m);
    assert(delta == m * q + d);
    lemma_mod_multiples_vanish(1, pos - d, m);
    assert((m * 1 + (pos - d)) % m == (pos - d) % m);
    assert(pos + m - d == m * 1 + (pos - d));
    lemma_mod_multiples_vanish(-q, pos - d, m);
    assert((m * (-q) + (pos - d)) % m == (pos - d) % m);
    assert(m * (-q) == -(m * q)) by (nonlinear_arith);
    assert(pos - delta == m * (-q) + (pos - d));
}

/// After one tick of movement the head is still on the grid: the wrap
/// invariant of the toroidal coordinate space.
pub proof fn lemma_moved_bounds(v: SnakeV)
    requires
        v.bounds_ok(),
    ensures
        moved_view(v).bounds_ok(),
{
    let mx = v.grid_width * SUBCELL;
    let my = v.grid_height * SUBCELL;
    assert(mx >= SUBCELL && my >= SUBCELL) by (nonlinear_arith)
        requires
            v.grid_width >= 1,
            v.grid_height >= 1,
            mx == v.grid_width * SUBCELL,
            my == v.grid_height * SUBCELL,
    ;
    lemma_wrap_in_range(v.head_x, v.speed, mx);
    lemma_wrap_in_range(v.head_y, v.speed, my);
}

/// The head cell of a well-placed head lies on the grid.
proof fn lemma_head_cell_in_grid(v: SnakeV)
    requires
        v.bounds_ok(),
    ensures
        0 <= v.head_cell().x < v.grid_width,
        0 <= v.head_cell().y < v.grid_height,
{
    lemma_div_bound(v.head_x, SUBCELL as int, v.grid_width);
    lemma_div_bound(v.head_y, SUBCELL as int, v.grid_height);
}

/// One tick preserves well-formedness; in particular the head position stays
/// within `[0, grid_width * SUBCELL) x [0, grid_height * SUBCELL)` after any
/// number of ticks.
pub proof fn lemma_step_preserves_wf(v: SnakeV)
    requires
        v.wf(),
    ensures
        stepped(v).wf(),
        0 <= stepped(v).head_x < v.grid_width * SUBCELL,
        0 <= stepped(v).head_y < v.grid_height * SUBCELL,
{
    lemma_moved_bounds(v);
    let moved = moved_view(v);
    if moved.head_cell() == v.head_cell() {
        assert(stepped(v).wf());
    } else {
        let prev = v.head_cell();
        let cur = moved.head_cell();
        let pushed = v.body.push(prev);
        let nb = body_after(v.body, prev, v.growing);
        lemma_head_cell_in_grid(v);
        // Every new body cell is an old one or the old head cell.
        assert(forall|i: int|
            0 <= i < pushed.len() ==> pushed[i] == if i < v.body.len() {
                v.body[i]
            } else {
                prev
            });
        if v.growing {
            assert(nb == pushed);
        } else {
            assert(nb.len() == v.body.len());
            assert(forall|i: int| 0 <= i < nb.len() ==> nb[i] == pushed[i + 1]);
        }
        assert(forall|i: int|
            0 <= i < nb.len() ==> {
                &&& 0 <= (#[trigger] nb[i]).x < v.grid_width
                &&& 0 <= nb[i].y < v.grid_height
            });
        if stepped(v).alive {
            // The step keeps the creature alive, so the new head cell missed
            // every new segment, and the old distinctness carries over.
            assert(v.alive);
            assert(!nb.contains(cur));
            assert(forall|i: int, j: int|
                0 <= i < j < pushed.len() ==> pushed[i] != pushed[j]);
            if !v.growing {
                assert(forall|i: int, j: int|
                    0 <= i < j < nb.len() ==> nb[i] != nb[j]);
            }
            assert(stepped(v).distinct());
        }
        assert(stepped(v).wf());
    }
}

/// A direction change toward the true opposite of the current direction is
/// rejected exactly when the creature is longer than one cell; any other
/// request, and every request at length one, is taken.
pub proof fn lemma_change_direction(v: SnakeV, input: Direction)
    requires
        v.wf(),
    ensures
        v.size == 1 ==> steered(v, input, opposite_spec(input)) == (SnakeV {
            direction: input,
            ..v
        }),
        v.size > 1 && v.direction == opposite_spec(input) ==> steered(
            v,
            input,
            opposite_spec(input),
        ) == v,
        v.direction != opposite_spec(input) ==> steered(v, input, opposite_spec(input)) == (SnakeV {
            direction: input,
            ..v
        }),
{
}

/// A pending growth is consumed exactly at the next cell crossing: the size
/// rises by one there and not before, and without a pending growth a
/// crossing leaves the size alone.
pub proof fn lemma_growth_at_crossing(v: SnakeV)
    requires
        v.wf(),
    ensures
        crossing(v) && v.growing ==> stepped(v).size == v.size + 1 && !stepped(v).growing,
        crossing(v) && !v.growing ==> stepped(v).size == v.size,
        !crossing(v) ==> stepped(v).size == v.size && stepped(v).growing == v.growing,
{
}

/// A live creature dies in a tick exactly when that tick crosses into a cell
/// held by the body as updated at that crossing — never on a sub-cell move.
pub proof fn lemma_collision_at_crossing(v: SnakeV)
    requires
        v.wf(),
        v.alive,
    ensures
        !crossing(v) ==> stepped(v).alive,
        crossing(v) ==> (stepped(v).alive <==> !body_after(
            v.body,
            v.head_cell(),
            v.growing,
        ).contains(moved_view(v).head_cell())),
{
}

/// The creature: a player-driven segmented body on a toroidal grid. Head
/// motion is in sub-cell units; body and collision bookkeeping are per-cell.
pub struct Snake {
    pub direction: Direction,
    /// Sub-units the head advances per tick; grows as food is eaten.
    pub speed: u32,
    /// Number of cells occupied, head included.
    pub size: isize,
    pub alive: bool,
    /// Head position in sub-units.
    pub head_x: u32,
    /// Head position in sub-units.
    pub head_y: u32,
    /// Trailing body cells, oldest first.
    pub body: Vec<Cell>,
    /// Set when food was eaten; consumed at the next cell crossing.
    pub growing: bool,
    pub grid_width: usize,
    pub grid_height: usize,
}

impl View for Snake {
    type V = SnakeV;

    open spec fn view(&self) -> SnakeV {
        SnakeV {
            direction: self.direction,
            speed: self.speed as int,
            size: self.size as int,
            alive: self.alive,
            head_x: self.head_x as int,
            head_y: self.head_y as int,
            body: self.body@,
            growing: self.growing,
            grid_width: self.grid_width as int,
            grid_height: self.grid_height as int,
        }
    }
}

impl Snake {
    /// A fresh creature: one segment, centered on the grid, alive, moving up
    /// at the initial speed.
    pub fn new(grid_width: usize, grid_height: usize) -> (s: Snake)
        requires
            1 <= grid_width <= MAX_DIM,
            1 <= grid_height <= MAX_DIM,
        ensures
            s@ == initial_snake(grid_width as int, grid_height as int),
            s@.wf(),
    {
        proof {
            assert(grid_width * SUBCELL <= MAX_DIM * SUBCELL) by (nonlinear_arith)
                requires
                    grid_width <= MAX_DIM,
            ;
            assert(grid_height * SUBCELL <= MAX_DIM * SUBCELL) by (nonlinear_arith)
                requires
                    grid_height <= MAX_DIM,
            ;
        }
        let cx: u64 = (grid_width as u64) * (SUBCELL as u64) / 2;
        let cy: u64 = (grid_height as u64) * (SUBCELL as u64) / 2;
        let s = Snake {
            direction: Direction::Up,
            speed: INITIAL_SPEED,
            size: 1,
            alive: true,
            head_x: cx as u32,
            head_y: cy as u32,
            body: Vec::new(),
            growing: false,
            grid_width,
            grid_height,
        };
        proof {
            lemma_div_bound(
                grid_width * SUBCELL,
                2,
                grid_width * SUBCELL,
            );
            lemma_div_bound(
                grid_height * SUBCELL,
                2,
                grid_height * SUBCELL,
            );
        }
        s
    }

    /// The grid cell the head currently occupies.
    pub fn current_cell(&self) -> (c: Cell)
        requires
            self@.bounds_ok(),
        ensures
            c == self@.head_cell(),
    {
        proof {
            lemma_head_cell_in_grid(self@);
        }
        Cell { x: (self.head_x / SUBCELL) as i32, y: (self.head_y / SUBCELL) as i32 }
    }

    /// Advances the head one tick along the current direction and wraps it
    /// toroidally into the grid.
    fn update_head(&mut self)
        requires
            old(self)@.bounds_ok(),
        ensures
            final(self)@ == moved_view(old(self)@),
    {
        proof {
            lemma_moved_bounds(old(self)@);
        }
        match self.direction {
            Direction::Up => {
                let m: u64 = (self.grid_height as u64) * (SUBCELL as u64);
                let s: u64 = (self.speed as u64) % m;
                self.head_y = (((self.head_y as u64) + m - s) % m) as u32;
            },
            Direction::Down => {
                let m: u64 = (self.grid_height as u64) * (SUBCELL as u64);
                self.head_y = (((self.head_y as u64) + (self.speed as u64)) % m) as u32;
            },
            Direction::Left => {
                let m: u64 = (self.grid_width as u64) * (SUBCELL as u64);
                let s: u64 = (self.speed as u64) % m;
                self.head_x = (((self.head_x as u64) + m - s) % m) as u32;
            },
            Direction::Right => {
                let m: u64 = (self.grid_width as u64) * (SUBCELL as u64);
                self.head_x = (((self.head_x as u64) + (self.speed as u64)) % m) as u32;
            },
        }
    }

    /// Records the crossed-from cell in the body, consumes a pending growth
    /// or slides the tail, and dies if the new head cell hits the body.
    fn update_body(&mut self, current: Cell, prev: Cell)
        requires
            1 <= old(self)@.size < isize::MAX,
            old(self)@.body.len() == old(self)@.size - 1,
        ensures
            final(self)@ == (SnakeV {
                body: body_after(old(self)@.body, prev, old(self)@.growing),
                growing: false,
                size: if old(self)@.growing {
                    old(self)@.size + 1
                } else {
                    old(self)@.size
                },
                alive: if body_after(old(self)@.body, prev, old(self)@.growing).contains(current) {
                    false
                } else {
                    old(self)@.alive
                },
                ..old(self)@
            }),
    {
        self.body.push(prev);
        if !self.growing {
            self.body.remove(0);
        } else {
            self.growing = false;
            self.size = self.size + 1;
        }
        let ghost nb = body_after(old(self)@.body, prev, old(self)@.growing);
        assert(self@.body == nb);
        let mut i: usize = 0;
        while i < self.body.len()
            invariant
                i <= self.body.len(),
                self@.body == nb,
                self@ == (SnakeV {
                    alive: if nb.subrange(0, i as int).contains(current) {
                        false
                    } else {
                        old(self)@.alive
                    },
                    growing: false,
                    size: if old(self)@.growing {
                        old(self)@.size + 1
                    } else {
                        old(self)@.size
                    },
                    body: nb,
                    ..old(self)@
                }),
            decreases self.body.len() - i,
        {
            let item = self.body[i];
            if current.x == item.x && current.y == item.y {
                self.alive = false;
                proof {
                    assert(nb.subrange(0, i as int + 1)[i as int] == current);
                }
            }
            proof {
                assert(nb.subrange(0, i as int + 1).drop_last() == nb.subrange(0, i as int));
            }
            i = i + 1;
        }
        proof {
            assert(nb.subrange(0, nb.len() as int) == nb);
        }
    }

    /// One tick: move the head; on a cell crossing, update the body, apply a
    /// pending growth, and detect self-collision.
    pub fn update(&mut self)
        requires
            old(self)@.wf(),
            old(self)@.alive,
            old(self)@.size < isize::MAX,
        ensures
            final(self)@ == stepped(old(self)@),
            final(self)@.wf(),
    {
        proof {
            lemma_moved_bounds(old(self)@);
            lemma_step_preserves_wf(old(self)@);
        }
        let prev = self.current_cell();
        self.update_head();
        let current = self.current_cell();
        if current.x != prev.x || current.y != prev.y {
            self.update_body(current, prev);
        }
    }

    /// Requests growth: the next cell crossing extends the body instead of
    /// sliding it. Idempotent until consumed.
    pub fn grow_body(&mut self)
        ensures
            final(self)@ == (SnakeV { growing: true, ..old(self)@ }),
    {
        self.growing = true;
    }

    /// True if `(x, y)` is the head cell or one of the body segments; used to
    /// keep food off the creature.
    pub fn snake_cell(&self, x: i32, y: i32) -> (r: bool)
        requires
            self@.bounds_ok(),
        ensures
            r == self@.occupies(Cell { x: x, y: y }),
    {
        let c = self.current_cell();
        if x == c.x && y == c.y {
            return true;
        }
        let mut i: usize = 0;
        while i < self.body.len()
            invariant
                i <= self.body.len(),
                forall|j: int| 0 <= j < i ==> self@.body[j] != (Cell { x: x, y: y }),
            decreases self.body.len() - i,
        {
            let item = self.body[i];
            if x == item.x && y == item.y {
                return true;
            }
            i = i + 1;
        }
        false
    }

    /// Sets the direction to `input` unless that would reverse a creature
    /// longer than one cell straight into itself (`opposite` names the
    /// direction 180 degrees from `input`, supplied by the caller).
    pub fn change_direction(&mut self, input: Direction, opposite: Direction)
        ensures
            final(self)@ == steered(old(self)@, input, opposite),
    {
        if self.direction != opposite || self.size == 1 {
            self.direction = input;
        }
    }
}

} // verus!
