use snake_game::direction::{is_direction_conflict, Direction};
use snake_game::engine::App;
use snake_game::food::Food;
use snake_game::grid::{generate_all_position, generate_random_position};
use snake_game::position::Position;
use snake_game::snake::Snake;

fn pos(x: i16, y: i16) -> Position {
    Position { x, y }
}

fn board() -> Vec<Position> {
    generate_all_position(300, 300)
}

fn app_with(body: Vec<Position>, direction: Direction, food: Position) -> App {
    let body_set = body.clone();
    App {
        snake: Snake {
            body,
            body_set,
            direction,
        },
        food: Food { position: food },
        game_over: false,
        all_position: board(),
    }
}

#[test]
fn direction_conflict_is_exactly_reversal() {
    let all = [
        Direction::Up,
        Direction::Down,
        Direction::Left,
        Direction::Right,
    ];
    let opposite = |d: &Direction| match d {
        Direction::Up => Direction::Down,
        Direction::Down => Direction::Up,
        Direction::Left => Direction::Right,
        Direction::Right => Direction::Left,
    };
    let mut conflicts = 0;
    for prev in &all {
        for next in &all {
            let expected = *next == opposite(prev);
            assert_eq!(is_direction_conflict(prev, *next), expected);
            if expected {
                conflicts += 1;
            }
        }
    }
    assert_eq!(conflicts, 4);
}

#[test]
fn grid_has_one_cell_per_step_pair() {
    let cells = board();
    // 33 stepped coordinates per axis: 0, 9, ..., 288.
    assert_eq!(cells.len(), 33 * 33);
    let unique: std::collections::HashSet<(i16, i16)> =
        cells.iter().map(|p| (p.x, p.y)).collect();
    assert_eq!(unique.len(), 33 * 33);
    for p in &cells {
        assert!(p.x >= 0 && p.x <= 291 && p.x % 9 == 0);
        assert!(p.y >= 0 && p.y <= 291 && p.y % 9 == 0);
    }
    assert!(unique.contains(&(0, 0)));
    assert!(unique.contains(&(288, 288)));
    assert!(!unique.contains(&(291, 0)));
}

#[test]
fn random_position_stays_on_the_stepped_range() {
    for _ in 0..50 {
        let p = generate_random_position(300, 300);
        assert!(p.x >= 0 && p.x <= 291 && p.x % 9 == 0);
        assert!(p.y >= 0 && p.y <= 291 && p.y % 9 == 0);
    }
}

#[test]
fn random_position_falls_back_to_origin() {
    // Both stepped ranges are empty on a board smaller than one cell.
    let p = generate_random_position(5, 3);
    assert_eq!((p.x, p.y), (0, 0));
    // A single-cell board has only the origin to choose.
    let q = generate_random_position(9, 9);
    assert_eq!((q.x, q.y), (0, 0));
}

#[test]
fn non_eating_tick_translates_a_long_body() {
    let mut app = app_with(
        vec![pos(18, 9), pos(9, 9), pos(0, 9)],
        Direction::Right,
        pos(90, 90),
    );
    app.update();
    assert!(!app.game_over);
    assert_eq!(app.snake.body, vec![pos(27, 9), pos(18, 9), pos(9, 9)]);
    assert_eq!(app.snake.body.len(), 3);
}

#[test]
fn non_eating_tick_keeps_a_single_segment() {
    // A length-1 snake pops its only tail cell and keeps length 1.
    let mut app = app_with(vec![pos(90, 90)], Direction::Right, pos(0, 0));
    app.update();
    assert!(!app.game_over);
    assert_eq!(app.snake.body, vec![pos(99, 90)]);
    assert_eq!(app.snake.body_set, vec![pos(99, 90)]);
}

#[test]
fn eating_tick_grows_and_relocates_the_food() {
    let mut app = app_with(vec![pos(9, 9), pos(0, 9)], Direction::Right, pos(18, 9));
    app.update();
    assert!(!app.game_over);
    assert_eq!(app.snake.body, vec![pos(18, 9), pos(9, 9), pos(0, 9)]);
    let f = app.food.position;
    assert!(!app.snake.body.contains(&f));
    assert!(!app.snake.body_set.contains(&f));
    assert!(f.x >= 0 && f.x <= 291 && f.x % 9 == 0);
    assert!(f.y >= 0 && f.y <= 291 && f.y % 9 == 0);
}

#[test]
fn wall_collision_ends_the_game() {
    let mut app = app_with(vec![pos(0, 9)], Direction::Left, pos(90, 90));
    app.update();
    assert!(app.game_over);

    let mut app = app_with(vec![pos(288, 9)], Direction::Right, pos(90, 90));
    app.update();
    assert!(app.game_over);

    let mut app = app_with(vec![pos(9, 0)], Direction::Up, pos(90, 90));
    app.update();
    assert!(app.game_over);

    let mut app = app_with(vec![pos(9, 288)], Direction::Down, pos(90, 90));
    app.update();
    assert!(app.game_over);
}

#[test]
fn self_collision_ends_the_game() {
    // Head (9,9); moving down lands on (9,18), a body cell that is
    // not the vacating tail.
    let mut app = app_with(
        vec![pos(9, 9), pos(9, 18), pos(18, 18), pos(18, 9)],
        Direction::Down,
        pos(90, 90),
    );
    app.update();
    assert!(app.game_over);
}

#[test]
fn food_respawn_on_a_full_board_reports_no_cell() {
    let all = board();
    let invalid = all.clone();
    let food = Food {
        position: pos(0, 0),
    };
    assert_eq!(food.refresh_position(all, invalid), None);
}

#[test]
fn food_respawn_avoids_the_occupied_cells() {
    let all = board();
    let invalid = vec![pos(0, 0), pos(9, 0), pos(0, 9)];
    let food = Food {
        position: pos(0, 0),
    };
    let chosen = food.refresh_position(all.clone(), invalid.clone());
    let p = chosen.expect("the board is nearly empty");
    assert!(all.contains(&p));
    assert!(!invalid.contains(&p));
}

#[test]
fn rejected_direction_change_leaves_the_state_alone() {
    let mut app = app_with(vec![pos(90, 90)], Direction::Up, pos(0, 0));
    app.change_directions(Direction::Down);
    assert_eq!(app.snake.direction, Direction::Up);
    app.change_directions(Direction::Left);
    assert_eq!(app.snake.direction, Direction::Left);
}

#[test]
fn new_game_starts_well_formed() {
    for _ in 0..20 {
        let app = App::new();
        assert!(!app.game_over);
        assert_eq!(app.snake.body.len(), 1);
        assert_eq!(app.snake.body_set, app.snake.body);
        assert!(!app.snake.body.contains(&app.food.position));
        assert_eq!(app.all_position.len(), 33 * 33);
    }
}
