// Scenario tests for the snake engine: grid wraparound, direction changes,
// stepping, collision, growth, and the win condition.

use snake_engine::Direction;
use snake_engine::GameStatus;
use snake_engine::World;
use snake_engine::grid::next_index;

fn cells_of(w: &World) -> Vec<usize> {
    w.snake_cells().iter().map(|c| c.0).collect()
}

#[test]
fn next_index_right_straight() {
    assert_eq!(next_index(8, 64, 10, Direction::Right), 11);
}

#[test]
fn next_index_right_wraps() {
    // Head in the last column of row 0 re-enters at column 0 of the same row.
    assert_eq!(next_index(8, 64, 7, Direction::Right), 0);
    assert_eq!(next_index(8, 64, 23, Direction::Right), 16);
}

#[test]
fn next_index_left_straight() {
    assert_eq!(next_index(8, 64, 10, Direction::Left), 9);
}

#[test]
fn next_index_left_wraps() {
    // Head in the first column of row 1 re-enters at the last column of row 1.
    assert_eq!(next_index(8, 64, 8, Direction::Left), 15);
}

#[test]
fn next_index_up_straight() {
    assert_eq!(next_index(8, 64, 10, Direction::Up), 2);
}

#[test]
fn next_index_up_wraps() {
    // Head in the first row re-enters at the same column of the last row.
    assert_eq!(next_index(8, 64, 0, Direction::Up), 56);
    assert_eq!(next_index(8, 64, 3, Direction::Up), 59);
}

#[test]
fn next_index_down_straight() {
    assert_eq!(next_index(8, 64, 10, Direction::Down), 18);
}

#[test]
fn next_index_down_wraps() {
    // Head in the last row re-enters at the same column of the first row.
    assert_eq!(next_index(8, 64, 58, Direction::Down), 2);
}

#[test]
fn new_world_state() {
    let w = World::new(8, 10);
    assert_eq!(w.width(), 8);
    assert_eq!(w.points(), 0);
    assert_eq!(w.snake_head_index(), 10);
    assert_eq!(w.snake_length(), 3);
    assert_eq!(cells_of(&w), vec![10, 9, 8]);
    assert!(w.game_status().is_none());
    assert_eq!(w.game_status_text(), "Zzz");
}

#[test]
fn initial_reward_is_on_grid_and_off_body() {
    let w = World::new(8, 10);
    let reward = w.reward_cell().unwrap();
    assert!(reward < 64);
    assert!(!cells_of(&w).contains(&reward));
}

#[test]
fn spawn_at_minimum_index() {
    let w = World::new(8, 2);
    assert_eq!(cells_of(&w), vec![2, 1, 0]);
}

#[test]
fn seeded_worlds_replay_identically() {
    let a = World::new_seeded(8, 10, 42);
    let b = World::new_seeded(8, 10, 42);
    assert_eq!(a.reward_cell(), b.reward_cell());
    let reward = a.reward_cell().unwrap();
    assert!(reward < 64);
    assert!(!cells_of(&a).contains(&reward));
}

#[test]
fn noop_before_start() {
    let mut w = World::new(8, 10);
    let reward = w.reward_cell();
    w.step();
    assert!(w.game_status().is_none());
    assert_eq!(cells_of(&w), vec![10, 9, 8]);
    assert_eq!(w.points(), 0);
    assert_eq!(w.reward_cell(), reward);
}

#[test]
fn straight_step_shifts_body() {
    let mut w = World::new(8, 10);
    let reward = w.reward_cell().unwrap();
    w.start_game();
    assert_eq!(w.game_status(), Some(GameStatus::Played));
    assert_eq!(w.game_status_text(), "Playing");
    w.step();
    assert_eq!(w.snake_head_index(), 11);
    let cells = cells_of(&w);
    assert_eq!(&cells[0..3], &[11, 10, 9]);
    if reward == 11 {
        assert_eq!(w.snake_length(), 4);
    } else {
        assert_eq!(w.snake_length(), 3);
    }
}

#[test]
fn reversal_is_rejected() {
    let mut w = World::new(8, 10);
    w.start_game();
    // The snake moves Right and its neck sits directly left of the head, so
    // a turn to Left is silently ignored and the snake keeps going Right.
    w.change_snake_dir(Direction::Left);
    w.step();
    assert_eq!(w.snake_head_index(), 11);
    // Same after a real step: the neck is now the cell the head came from.
    w.change_snake_dir(Direction::Left);
    w.step();
    assert_eq!(w.snake_head_index(), 12);
}

#[test]
fn accepted_direction_change_is_buffered_and_kept() {
    let mut w = World::new(8, 10);
    w.start_game();
    w.change_snake_dir(Direction::Down);
    w.step();
    assert_eq!(w.snake_head_index(), 18);
    // The buffered cell was consumed; the stored direction carries on.
    w.step();
    assert_eq!(w.snake_head_index(), 26);
}

#[test]
fn direction_change_before_start_is_buffered() {
    let mut w = World::new(8, 10);
    w.change_snake_dir(Direction::Down);
    w.start_game();
    w.step();
    assert_eq!(w.snake_head_index(), 18);
}

#[test]
fn wraparound_right_at_row_end() {
    let mut w = World::new(8, 7);
    w.start_game();
    w.step();
    assert_eq!(w.snake_head_index(), 0);
}

#[test]
fn wraparound_up_from_first_row() {
    let mut w = World::new(8, 7);
    w.start_game();
    w.step();
    assert_eq!(w.snake_head_index(), 0);
    w.change_snake_dir(Direction::Up);
    w.step();
    assert_eq!(w.snake_head_index(), 64 - 8);
}

#[test]
fn self_collision_loses() {
    // On a 2x2 grid the spawn body [3, 2, 1] leaves only cell 0 free, and a
    // straight step from cell 3 wraps onto cell 2, which the shifted body
    // still occupies.
    let mut w = World::new(2, 3);
    assert_eq!(w.reward_cell(), Some(0));
    w.start_game();
    w.step();
    assert_eq!(w.game_status(), Some(GameStatus::Lost));
    assert_eq!(w.game_status_text(), "You have Lost");
    let cells = cells_of(&w);
    let points = w.points();
    // Terminal: further steps change nothing.
    w.step();
    w.step();
    assert_eq!(w.game_status(), Some(GameStatus::Lost));
    assert_eq!(cells_of(&w), cells);
    assert_eq!(w.points(), points);
}

// Steers the 2x2 world from its spawn onto the reward at cell 0.
fn world_2x2_after_eating() -> World {
    let mut w = World::new(2, 3);
    assert_eq!(w.reward_cell(), Some(0));
    w.start_game();
    w.change_snake_dir(Direction::Down);
    w.step();
    assert_eq!(cells_of(&w), vec![1, 3, 2]);
    w.change_snake_dir(Direction::Left);
    w.step();
    w
}

#[test]
fn eating_grows_scores_and_replaces_reward() {
    let w = world_2x2_after_eating();
    assert_eq!(w.game_status(), Some(GameStatus::Played));
    assert_eq!(w.points(), 1);
    assert_eq!(w.snake_length(), 4);
    assert_eq!(cells_of(&w), vec![0, 1, 3, 1]);
    // The new reward avoids every cell of the post-growth body; on this
    // board only cell 2 is left.
    assert_eq!(w.reward_cell(), Some(2));
}

// The state facts the engine maintains, checked from outside.
fn check_state(w: &World) {
    let size = w.width() * w.width();
    let cells = cells_of(w);
    for &c in &cells {
        assert!(c < size);
    }
    match w.reward_cell() {
        Some(r) => {
            assert!(r < size);
            assert!(!cells.contains(&r));
            assert_ne!(w.game_status(), Some(GameStatus::Won));
        }
        None => assert_eq!(w.game_status(), Some(GameStatus::Won)),
    }
    assert!(w.points() + 3 <= w.snake_length());
    assert!(w.snake_length() <= size);
}

#[test]
fn state_facts_hold_along_a_walk() {
    let mut w = World::new(4, 10);
    check_state(&w);
    w.start_game();
    check_state(&w);
    let script = [
        Direction::Right,
        Direction::Down,
        Direction::Left,
        Direction::Up,
        Direction::Right,
        Direction::Right,
        Direction::Down,
        Direction::Down,
        Direction::Left,
        Direction::Up,
    ];
    for dir in script {
        w.change_snake_dir(dir);
        w.step();
        check_state(&w);
        if w.game_status() != Some(GameStatus::Played) {
            break;
        }
    }
    for _ in 0..10 {
        w.step();
        check_state(&w);
    }
}

#[test]
fn filling_the_grid_wins() {
    let mut w = world_2x2_after_eating();
    assert_eq!(w.reward_cell(), Some(2));
    w.change_snake_dir(Direction::Down);
    w.step();
    assert_eq!(w.game_status(), Some(GameStatus::Won));
    assert_eq!(w.game_status_text(), "You have won");
    assert_eq!(w.reward_cell(), None);
    assert_eq!(w.points(), 1);
    // No growth on the winning tick: the body stays at `size` cells.
    assert_eq!(w.snake_length(), 4);
    let cells = cells_of(&w);
    assert_eq!(cells, vec![2, 0, 1, 3]);
    // Terminal: further steps change nothing.
    w.step();
    assert_eq!(w.game_status(), Some(GameStatus::Won));
    assert_eq!(cells_of(&w), cells);
    assert_eq!(w.points(), 1);
    assert_eq!(w.reward_cell(), None);
}
