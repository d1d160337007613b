//! The selection-window core of an interactive fuzzy finder: a bounded-height
//! slice of a ranked result set with one selected row and up/down movement.
pub mod laws;
pub mod list;

pub use list::{List, ListModel};
