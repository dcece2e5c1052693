//! Food placement: uniformly sampled cells, rejected while they land
//! on an occupied cell, with a bounded number of retries.

use vstd::prelude::*;
use crate::grid::{Cell, Grid};

verus! {

/// How many occupied samples are tolerated before a spawn tick gives
/// up; a bounded retry keeps a nearly full board from spinning forever.
pub const SPAWN_ATTEMPTS: u32 = 42;

/// Relies on rand::random::<u32>: a uniformly sampled 32-bit value.
/// Nothing is assumed of the value returned.
#[verifier::external_body]
fn random_u32() -> u32 {
    rand::random::<u32>()
}

/// The cell a pair of raw samples lands on: each sample is reduced to
/// its axis by the remainder, so every cell of the grid is reachable.
pub open spec fn sampled_cell_spec(grid: Grid, rx: u32, ry: u32) -> Cell {
    Cell { x: (rx % (grid.width as u32)) as i32, y: (ry % (grid.height as u32)) as i32 }
}

/// Reduce two raw samples to a cell on the grid.
pub fn sampled_cell(grid: &Grid, rx: u32, ry: u32) -> (c: Cell)
    requires
        grid.valid(),
    ensures
        c == sampled_cell_spec(*grid, rx, ry),
        grid.contains_spec(c),
{
    Cell { x: (rx % (grid.width as u32)) as i32, y: (ry % (grid.height as u32)) as i32 }
}

/// Whether a cell is among the occupied ones.
pub fn is_occupied(c: Cell, occupied: &Vec<Cell>) -> (r: bool)
    ensures
        r == occupied@.contains(c),
{
    let mut i: usize = 0;
    while i < occupied.len()
        invariant
            i <= occupied.len(),
            forall|j: int| 0 <= j < i ==> occupied@[j] != c,
        decreases occupied.len() - i,
    {
        if occupied[i] == c {
            return true;
        }
        i += 1;
    }
    false
}

/// Sample cells uniformly until one misses every occupied cell; give
/// up and spawn nothing after `SPAWN_ATTEMPTS` failed attempts. A
/// spawned cell is always in bounds and never occupied at spawn time;
/// when no in-bounds cell is occupied at all, the first sample cannot
/// be rejected, so a spawn is guaranteed.
pub fn try_spawn(grid: &Grid, occupied: &Vec<Cell>) -> (r: Option<Cell>)
    requires
        grid.valid(),
    ensures
        r matches Some(c) ==> grid.contains_spec(c) && !occupied@.contains(c),
        (forall|c: Cell| grid.contains_spec(c) ==> !occupied@.contains(c)) ==> r is Some,
{
    let mut attempts: u32 = 0;
    while attempts < SPAWN_ATTEMPTS
        invariant
            grid.valid(),
            attempts <= SPAWN_ATTEMPTS,
            (forall|c: Cell| grid.contains_spec(c) ==> !occupied@.contains(c)) ==> attempts == 0,
        decreases SPAWN_ATTEMPTS - attempts,
    {
        let c = sampled_cell(grid, random_u32(), random_u32());
        if !is_occupied(c, occupied) {
            return Some(c);
        }
        attempts += 1;
    }
    None
}

} // verus!
