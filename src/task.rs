use vstd::prelude::*;

use crate::status::Status;

verus! {

/// One work item on the board.
#[derive(PartialEq, Eq, Debug)]
pub struct Task {
    /// Stable identifier, never reused on the same board.
    pub id: usize,
    /// What the task is about, as the user typed it.
    pub text: String,
    /// The column the task stands in.
    pub status: Status,
}

/// What a task is, mathematically.
pub struct TaskModel {
    pub id: usize,
    pub text: Seq<char>,
    pub status: Status,
}

impl View for Task {
    type V = TaskModel;

    open spec fn view(&self) -> TaskModel {
        TaskModel { id: self.id, text: self.text@, status: self.status }
    }
}

impl Task {
    /// A task equal to this one, with a text buffer of its own.
    pub fn duplicate(&self) -> (r: Task)
        ensures
            r@ == self@,
    {
        Task { id: self.id, text: self.text.clone(), status: self.status }
    }
}

/// A change requested while the board is drawn, applied afterwards.
#[derive(Clone, Copy, PartialEq, Eq, Structural, Debug)]
pub enum Action {
    /// Remove the task with this identifier.
    Delete(usize),
    /// Move the task with this identifier to the given column.
    ChangeStatus(usize, Status),
}

} // verus!
