//! A minimal PLONKish constraint system and satisfaction checker.
//!
//! A circuit is described once as a set of columns, selectors, polynomial
//! gates and lookup arguments; a witness is laid out into a grid of cells;
//! and a checker decides whether the gates, lookups and copy constraints are
//! all satisfied by the grid, reporting each violation.

pub mod cs;
pub mod expr;
pub mod field;
pub mod grid;
pub mod layout;
pub mod checker;
pub mod laws;
pub mod fibonacci;
