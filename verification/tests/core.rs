//! Tests for the leaf components: directions and the turn buffer, grid
//! wrap-around, interval timers, and configuration validation.

use danger_noodle::config::ConfigError;
use danger_noodle::direction::{consume, pick_direction, Direction, KeyPresses};
use danger_noodle::grid::{Cell, Grid};
use danger_noodle::timer::IntervalTimer;

#[test]
fn opposite_pairs() {
    assert_eq!(Direction::Up.opposite(), Direction::Down);
    assert_eq!(Direction::Down.opposite(), Direction::Up);
    assert_eq!(Direction::Left.opposite(), Direction::Right);
    assert_eq!(Direction::Right.opposite(), Direction::Left);
}

#[test]
fn default_direction_is_up() {
    assert_eq!(Direction::default(), Direction::Up);
}

#[test]
fn pick_priority_left_first() {
    let all = KeyPresses { left: true, right: true, down: true, up: true };
    assert_eq!(pick_direction(&all), Some(Direction::Left));
    let right_up = KeyPresses { left: false, right: true, down: false, up: true };
    assert_eq!(pick_direction(&right_up), Some(Direction::Right));
    let down_up = KeyPresses { left: false, right: false, down: true, up: true };
    assert_eq!(pick_direction(&down_up), Some(Direction::Down));
    let up = KeyPresses { left: false, right: false, down: false, up: true };
    assert_eq!(pick_direction(&up), Some(Direction::Up));
    let none = KeyPresses { left: false, right: false, down: false, up: false };
    assert_eq!(pick_direction(&none), None);
}

#[test]
fn consume_discards_reversal() {
    // pending_turns = [Down] while the snake moves Up: Down is the
    // exact opposite, so it is discarded and the direction is kept.
    let mut pending = vec![Direction::Down];
    let r = consume(&mut pending, Direction::Up);
    assert_eq!(r, Direction::Up);
    assert!(pending.is_empty());
}

#[test]
fn consume_discards_same_direction() {
    let mut pending = vec![Direction::Up];
    let r = consume(&mut pending, Direction::Up);
    assert_eq!(r, Direction::Up);
    assert!(pending.is_empty());
}

#[test]
fn consume_finds_valid_turn_behind_reversal() {
    // A valid turn queued behind a reversal-invalid one is still found
    // on the same call.
    let mut pending = vec![Direction::Down, Direction::Left];
    let r = consume(&mut pending, Direction::Up);
    assert_eq!(r, Direction::Left);
    assert!(pending.is_empty());
}

#[test]
fn consume_leaves_later_entries_queued() {
    let mut pending = vec![Direction::Left, Direction::Right];
    let r = consume(&mut pending, Direction::Up);
    assert_eq!(r, Direction::Left);
    assert_eq!(pending, vec![Direction::Right]);
}

#[test]
fn consume_empty_keeps_direction() {
    let mut pending: Vec<Direction> = Vec::new();
    let r = consume(&mut pending, Direction::Right);
    assert_eq!(r, Direction::Right);
    assert!(pending.is_empty());
}

#[test]
fn step_moves_one_cell() {
    let grid = Grid { width: 10, height: 10 };
    let c = Cell { x: 3, y: 3 };
    assert_eq!(grid.step(c, Direction::Up), Cell { x: 3, y: 4 });
    assert_eq!(grid.step(c, Direction::Down), Cell { x: 3, y: 2 });
    assert_eq!(grid.step(c, Direction::Left), Cell { x: 2, y: 3 });
    assert_eq!(grid.step(c, Direction::Right), Cell { x: 4, y: 3 });
}

#[test]
fn step_wraps_every_edge() {
    let grid = Grid { width: 10, height: 10 };
    assert_eq!(grid.step(Cell { x: 0, y: 3 }, Direction::Left), Cell { x: 9, y: 3 });
    assert_eq!(grid.step(Cell { x: 9, y: 3 }, Direction::Right), Cell { x: 0, y: 3 });
    assert_eq!(grid.step(Cell { x: 3, y: 9 }, Direction::Up), Cell { x: 3, y: 0 });
    assert_eq!(grid.step(Cell { x: 3, y: 0 }, Direction::Down), Cell { x: 3, y: 9 });
}

#[test]
fn step_stays_in_bounds_from_everywhere() {
    // Wrap invariant on concrete values: stepping from every cell of a
    // small grid, in every direction, lands in bounds.
    let grid = Grid { width: 4, height: 5 };
    let dirs = [Direction::Left, Direction::Right, Direction::Up, Direction::Down];
    for x in 0..4 {
        for y in 0..5 {
            for d in dirs {
                let r = grid.step(Cell { x, y }, d);
                assert!(grid.contains(r));
            }
        }
    }
}

#[test]
fn grid_rejects_zero_size() {
    assert_eq!(Grid::new(0, 3), Err(ConfigError::ZeroSizedGrid));
    assert_eq!(Grid::new(3, 0), Err(ConfigError::ZeroSizedGrid));
    assert_eq!(Grid::new(-1, 5), Err(ConfigError::ZeroSizedGrid));
    assert_eq!(Grid::new(10, 10), Ok(Grid { width: 10, height: 10 }));
}

#[test]
fn timer_rejects_zero_interval() {
    assert_eq!(IntervalTimer::new(0), Err(ConfigError::NonPositiveInterval));
    let t = IntervalTimer::new(450).unwrap();
    assert_eq!(t.interval_ms, 450);
    assert_eq!(t.elapsed_ms, 0);
    assert!(!t.fired);
}

#[test]
fn timer_accumulates_then_fires() {
    let mut t = IntervalTimer::new(450).unwrap();
    t.tick(449);
    assert!(!t.fired);
    assert_eq!(t.elapsed_ms, 449);
    t.tick(1);
    assert!(t.fired);
    assert_eq!(t.elapsed_ms, 0);
    t.tick(10);
    assert!(!t.fired);
    assert_eq!(t.elapsed_ms, 10);
}

#[test]
fn timer_resets_to_zero_on_firing() {
    // The count restarts from zero when the timer fires; a surplus is
    // not carried over.
    let mut t = IntervalTimer::new(450).unwrap();
    t.tick(900);
    assert!(t.fired);
    assert_eq!(t.elapsed_ms, 0);
}

#[test]
fn timer_saturates_instead_of_overflowing() {
    let mut t = IntervalTimer::new(u64::MAX).unwrap();
    t.tick(u64::MAX - 5);
    assert!(!t.fired);
    t.tick(u64::MAX);
    assert!(t.fired);
    assert_eq!(t.elapsed_ms, 0);
}
