//! A single cell and the rule that decides its fate.

use vstd::prelude::*;
use vstd::string::StringExecFns;

verus! {

/// What one position of the grid holds.
#[derive(Clone, Copy, PartialEq, Eq, Debug, Structural)]
pub enum CellState {
    Dead,
    Alive,
}

impl CellState {
    /// The state of a cell in the next generation, given its state now and
    /// the number of its neighbours that live now: three live neighbours
    /// give a live cell, two keep a live cell alive, anything else is death.
    pub open spec fn spec_next(self, live_neighbors: nat) -> CellState {
        if live_neighbors == 3 || (self == CellState::Alive && live_neighbors == 2) {
            CellState::Alive
        } else {
            CellState::Dead
        }
    }

    /// The glyph that stands for this state in rendered text.
    pub open spec fn glyph(self) -> char {
        match self {
            CellState::Dead => '.',
            CellState::Alive => '*',
        }
    }

    /// Whether the cell lives.
    pub fn is_alive(self) -> (b: bool)
        ensures
            b == (self == CellState::Alive),
    {
        match self {
            CellState::Alive => true,
            CellState::Dead => false,
        }
    }

    /// Applies the rule of the game to one cell.
    pub fn next(self, live_neighbors: usize) -> (r: CellState)
        ensures
            r == self.spec_next(live_neighbors as nat),
    {
        match (self.is_alive(), live_neighbors) {
            (false, 3) => CellState::Alive,
            (true, 2) => CellState::Alive,
            (true, 3) => CellState::Alive,
            _ => CellState::Dead,
        }
    }

    /// The cell as text: a single glyph.
    pub fn render(self) -> (s: String)
        ensures
            s@ == seq![self.glyph()],
    {
        proof {
            reveal_strlit(".");
            reveal_strlit("*");
        }
        assert("."@ =~= seq!['.']);
        assert("*"@ =~= seq!['*']);
        match self {
            CellState::Dead => String::from_str("."),
            CellState::Alive => String::from_str("*"),
        }
    }
}

} // verus!
