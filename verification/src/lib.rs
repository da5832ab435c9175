//! A process table for Linux: the records shown for each process, how they
//! are ordered and filtered, and the keyboard-driven state of the terminal
//! interface that browses them.

use vstd::prelude::*;

pub mod order;
pub mod listing;
pub mod procs;
pub mod screens;
pub mod table;
pub mod text;
pub mod ui;

verus! {
} // verus!
