use rand::SeedableRng;
use snake_game::game::{Game, SPEED_INCREMENT};
use snake_game::snake::{Cell, Direction, Snake, INITIAL_SPEED, SUBCELL};

fn seeded(seed: u64) -> rand::rngs::StdRng {
    rand::rngs::StdRng::seed_from_u64(seed)
}

#[test]
fn new_game_places_food_off_the_creature() {
    let g = Game::new_with_rng(32, 32, seeded(7));
    assert_eq!(g.get_score(), 0);
    assert_eq!(g.get_size(), 1);
    assert!(!g.snake.snake_cell(g.food.x, g.food.y));
    assert!(g.food.x >= 0 && g.food.x < 31);
    assert!(g.food.y >= 0 && g.food.y < 31);
}

#[test]
fn smallest_grid_has_one_food_cell() {
    let g = Game::new_with_rng(2, 2, seeded(1));
    assert_eq!(g.food, Cell { x: 0, y: 0 });
    assert!(!g.snake.snake_cell(0, 0));
}

#[test]
fn place_food_never_lands_on_creature() {
    // A fixed body layout and a fixed seed: every draw must avoid the
    // creature, reproducibly.
    let mut snake = Snake::new(32, 32);
    snake.size = 4;
    snake.body = vec![
        Cell { x: 16, y: 17 },
        Cell { x: 16, y: 18 },
        Cell { x: 15, y: 18 },
    ];
    let mut g = Game {
        snake,
        food: Cell { x: 0, y: 0 },
        rng: seeded(42),
        score: 0,
    };
    for _ in 0..300 {
        g.place_food();
        assert!(!g.snake.snake_cell(g.food.x, g.food.y));
        assert!(g.food.x >= 0 && g.food.x < 31);
        assert!(g.food.y >= 0 && g.food.y < 31);
    }
}

#[test]
fn place_food_is_deterministic_with_equal_seeds() {
    let mut a = Game::new_with_rng(32, 32, seeded(9));
    let mut b = Game::new_with_rng(32, 32, seeded(9));
    assert_eq!(a.food, b.food);
    for _ in 0..20 {
        a.place_food();
        b.place_food();
        assert_eq!(a.food, b.food);
    }
}

#[test]
fn place_food_at_accepts_free_cell_and_rejects_others() {
    let mut g = Game::new_with_rng(32, 32, seeded(3));
    assert!(g.place_food_at(4, 5));
    assert_eq!(g.food, Cell { x: 4, y: 5 });
    // The head cell is occupied.
    let before = g.food;
    assert!(!g.place_food_at(16, 16));
    assert_eq!(g.food, before);
    // The outermost row and column are outside the food range.
    assert!(!g.place_food_at(31, 5));
    assert!(!g.place_food_at(5, 31));
    assert!(!g.place_food_at(-1, 5));
    assert_eq!(g.food, before);
}

#[test]
fn eating_food_scores_grows_and_speeds_up() {
    let mut g = Game::new_with_rng(32, 32, seeded(11));
    // Food one cell above the centered head, straight on its path.
    assert!(g.place_food_at(16, 15));
    assert_eq!(g.snake.speed, INITIAL_SPEED);

    // One tick crosses from cell (16, 16) into (16, 15) and eats.
    g.update();
    assert_eq!(g.get_score(), 1);
    assert_eq!(g.snake.speed, INITIAL_SPEED + SPEED_INCREMENT);
    assert!(g.snake.growing);
    // Growth is deferred to the next crossing.
    assert_eq!(g.get_size(), 1);
    // The new food is already off the creature and inside the range.
    assert!(!g.snake.snake_cell(g.food.x, g.food.y));
    assert!(g.food.x >= 0 && g.food.x < 31);
    assert!(g.food.y >= 0 && g.food.y < 31);
}

#[test]
fn end_to_end_score_one_then_body_two() {
    let mut g = Game::new_with_rng(32, 32, seeded(11));
    assert!(g.place_food_at(16, 15));

    // Exactly one tick reaches the food: head 16.00 cells, speed 0.10.
    g.update();
    assert_eq!(g.get_score(), 1);
    assert_eq!(g.get_size(), 1);

    // At speed 0.12 the next crossing, into cell (16, 14), comes after
    // exactly eight more ticks; the deferred growth lands there.
    for _ in 0..7 {
        g.update();
        assert_eq!(g.get_size(), 1);
    }
    g.update();
    assert_eq!(g.get_size(), 2);
    assert!(!g.snake.growing);
}

#[test]
fn dead_creature_tick_changes_nothing() {
    let mut snake = Snake::new(32, 32);
    snake.alive = false;
    let mut g = Game {
        snake,
        food: Cell { x: 3, y: 7 },
        rng: seeded(5),
        score: 9,
    };
    for _ in 0..10 {
        g.update();
        assert_eq!(g.get_score(), 9);
        assert_eq!(g.food, Cell { x: 3, y: 7 });
        assert_eq!(g.snake.head_x, 16 * SUBCELL);
        assert_eq!(g.snake.head_y, 16 * SUBCELL);
        assert_eq!(g.get_size(), 1);
        assert!(g.snake.body.is_empty());
        assert!(!g.snake.alive);
    }
}

#[test]
fn game_over_on_self_collision_then_halts() {
    let mut snake = Snake::new(32, 32);
    snake.direction = Direction::Up;
    snake.speed = 100;
    snake.size = 3;
    snake.body = vec![Cell { x: 16, y: 14 }, Cell { x: 16, y: 15 }];
    let mut g = Game {
        snake,
        food: Cell { x: 0, y: 0 },
        rng: seeded(2),
        score: 2,
    };
    g.update();
    assert!(!g.snake.alive);
    let head = (g.snake.head_x, g.snake.head_y);
    g.update();
    assert_eq!((g.snake.head_x, g.snake.head_y), head);
    assert_eq!(g.get_score(), 2);
}

#[test]
fn direction_change_steers_the_session() {
    let mut g = Game::new_with_rng(32, 32, seeded(13));
    g.snake
        .change_direction(Direction::Left, snake_game::snake::opposite(Direction::Left));
    assert_eq!(g.snake.direction, Direction::Left);
    g.update();
    assert_eq!(g.snake.head_x, 16 * SUBCELL - INITIAL_SPEED);
    assert_eq!(g.snake.head_y, 16 * SUBCELL);
}
