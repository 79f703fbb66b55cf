//! A two-state cellular automaton on a bounded rectangular grid, advanced one
//! generation at a time under the classic survive-on-2-or-3, born-on-3 rule.
pub mod grid;

pub use grid::Grid;
