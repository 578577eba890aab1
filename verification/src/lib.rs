//! Conway's Game of Life on a finite grid that does not wrap at its edges.
//!
//! [`grid::Grid`] holds the cells and moves them from one generation to the
//! next; [`grid::GridView`] is the mathematical model that every contract is
//! stated over; [`cell::CellState`] carries the rule of the game; [`laws`]
//! holds what follows from those contracts.
//!
//! A grid has at least one column and one row: [`grid::Grid::new`] refuses
//! anything else. Reading outside the grid gives `None`; writing outside it
//! fails with [`grid::GridError::OutOfBounds`] and changes nothing.

pub mod cell;
pub mod grid;
pub mod laws;
