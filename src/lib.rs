//! A Kanban task board: an ordered store of tasks with stable identifiers,
//! a three-column status workflow, and a buffer of actions that is recorded
//! while the board is being drawn and applied once drawing is over.

pub mod status;
pub mod task;
pub mod board;
pub mod frame;
