//! Grid coordinates and toroidal wrap-around arithmetic.

use vstd::prelude::*;
use crate::config::ConfigError;
use crate::direction::Direction;

verus! {

/// One grid coordinate. A cell is a plain value: two cells are the
/// same exactly when both coordinates agree.
#[derive(Copy, Clone, Debug, PartialEq, Eq, Hash, Structural)]
pub struct Cell {
    pub x: i32,
    pub y: i32,
}

/// The fixed playing field: `width` columns and `height` rows. Cells
/// live in `[0, width) x [0, height)`; stepping off one edge reappears
/// on the opposite edge.
#[derive(Copy, Clone, Debug, PartialEq, Eq, Structural)]
pub struct Grid {
    pub width: i32,
    pub height: i32,
}

/// Wrap a coordinate that is at most one step outside `[0, n)` back
/// into the range: `-1` becomes `n - 1`, `n` becomes `0`.
pub open spec fn wrap_coord(v: int, n: int) -> int {
    if v < 0 {
        n - 1
    } else if v >= n {
        0
    } else {
        v
    }
}

/// How one step in a direction changes the x coordinate.
pub open spec fn delta_x(d: Direction) -> int {
    match d {
        Direction::Left => -1,
        Direction::Right => 1,
        Direction::Up => 0,
        Direction::Down => 0,
    }
}

/// How one step in a direction changes the y coordinate.
pub open spec fn delta_y(d: Direction) -> int {
    match d {
        Direction::Left => 0,
        Direction::Right => 0,
        Direction::Up => 1,
        Direction::Down => -1,
    }
}

impl Grid {
    /// A usable grid has at least one column and one row.
    pub open spec fn valid(self) -> bool {
        1 <= self.width && 1 <= self.height
    }

    /// Whether a cell lies within the grid bounds.
    pub open spec fn contains_spec(self, c: Cell) -> bool {
        0 <= c.x < self.width && 0 <= c.y < self.height
    }

    /// The cell one step away in a direction, wrapped back onto the
    /// grid: each axis wraps independently.
    pub open spec fn step_spec(self, c: Cell, d: Direction) -> Cell {
        Cell {
            x: wrap_coord(c.x + delta_x(d), self.width as int) as i32,
            y: wrap_coord(c.y + delta_y(d), self.height as int) as i32,
        }
    }

    /// Build a grid, rejecting a zero-sized one: the simulation cannot
    /// make progress without at least one cell.
    pub fn new(width: i32, height: i32) -> (r: Result<Grid, ConfigError>)
        ensures
            width >= 1 && height >= 1 ==> r == Ok::<Grid, ConfigError>(Grid { width, height }),
            !(width >= 1 && height >= 1) ==> r == Err::<Grid, ConfigError>(
                ConfigError::ZeroSizedGrid,
            ),
    {
        if width >= 1 && height >= 1 {
            Ok(Grid { width, height })
        } else {
            Err(ConfigError::ZeroSizedGrid)
        }
    }

    /// Whether a cell lies within the grid bounds.
    pub fn contains(&self, c: Cell) -> (r: bool)
        ensures
            r == self.contains_spec(c),
    {
        0 <= c.x && c.x < self.width && 0 <= c.y && c.y < self.height
    }

    /// Move a cell one step in a direction, wrapping each axis
    /// independently at the edges. The result is always in bounds.
    pub fn step(&self, c: Cell, d: Direction) -> (r: Cell)
        requires
            self.valid(),
            self.contains_spec(c),
        ensures
            r == self.step_spec(c, d),
            self.contains_spec(r),
    {
        let mut x = c.x;
        let mut y = c.y;
        match d {
            Direction::Left => x = x - 1,
            Direction::Right => x = x + 1,
            Direction::Up => y = y + 1,
            Direction::Down => y = y - 1,
        }
        if x < 0 {
            x = self.width - 1;
        }
        if x >= self.width {
            x = 0;
        }
        if y < 0 {
            y = self.height - 1;
        }
        if y >= self.height {
            y = 0;
        }
        Cell { x, y }
    }
}

/// Law (wrap invariant): stepping from any in-bounds cell, in any
/// direction, lands in bounds again — movement never leaves the grid.
pub proof fn lemma_wrap_invariant(grid: Grid, c: Cell, d: Direction)
    requires
        grid.valid(),
        grid.contains_spec(c),
    ensures
        grid.contains_spec(grid.step_spec(c, d)),
{
}

/// Law: on a grid at least two cells wide and tall, a step always
/// changes the cell, so the new head can never equal the old head.
pub proof fn lemma_step_moves(grid: Grid, c: Cell, d: Direction)
    requires
        grid.width >= 2,
        grid.height >= 2,
        grid.contains_spec(c),
    ensures
        grid.step_spec(c, d) != c,
{
}

} // verus!
