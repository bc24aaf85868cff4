//! The two-valued cell state and the generation-transition rule.

use vstd::prelude::*;

verus! {

/// One cell of the grid: `Dead` or `Alive`.
#[derive(Clone, Copy, Debug, PartialEq, Eq, Structural)]
pub enum Cell {
    Dead,
    Alive,
}

/// The summand a cell contributes to a neighbor count: 1 if alive, 0 if dead.
pub open spec fn live_val(c: Cell) -> int {
    match c {
        Cell::Dead => 0,
        Cell::Alive => 1,
    }
}

/// The opposite state.
pub open spec fn spec_toggle(c: Cell) -> Cell {
    match c {
        Cell::Dead => Cell::Alive,
        Cell::Alive => Cell::Dead,
    }
}

/// The transition rule for one cell, given its live-neighbor count:
/// a live cell with fewer than 2 or at least 4 live neighbors dies and
/// survives otherwise; a dead cell with exactly 3 live neighbors is born,
/// and stays dead otherwise.
pub open spec fn next_cell(c: Cell, neighbors: int) -> Cell {
    match c {
        Cell::Alive => if neighbors < 2 {
            Cell::Dead
        } else if neighbors < 4 {
            Cell::Alive
        } else {
            Cell::Dead
        },
        Cell::Dead => if neighbors == 3 {
            Cell::Alive
        } else {
            Cell::Dead
        },
    }
}

impl Cell {
    /// Flip this cell between `Dead` and `Alive`.
    pub fn toggle(&mut self)
        ensures
            *final(self) == spec_toggle(*old(self)),
    {
        *self = match *self {
            Cell::Dead => Cell::Alive,
            Cell::Alive => Cell::Dead,
        };
    }
}

/// Toggling a cell twice restores its original state.
pub proof fn lemma_toggle_involution(c: Cell)
    ensures
        spec_toggle(spec_toggle(c)) == c,
{
}

/// The transition rule, case by case: birth on exactly 3 neighbors,
/// survival on 2 or 3, death otherwise.
pub proof fn lemma_transition_rule(c: Cell, n: int)
    requires
        0 <= n <= 8,
    ensures
        c == Cell::Dead && n == 3 ==> next_cell(c, n) == Cell::Alive,
        c == Cell::Dead && n != 3 ==> next_cell(c, n) == Cell::Dead,
        c == Cell::Alive && n < 2 ==> next_cell(c, n) == Cell::Dead,
        c == Cell::Alive && (n == 2 || n == 3) ==> next_cell(c, n) == Cell::Alive,
        c == Cell::Alive && n >= 4 ==> next_cell(c, n) == Cell::Dead,
{
}

} // verus!
