use vstd::prelude::*;

verus! {

/// The column a task stands in.
#[derive(Clone, Copy, PartialEq, Eq, Structural, Debug)]
pub enum Status {
    /// Waiting to be started.
    Todo,
    /// Being worked on.
    InProgress,
    /// Finished.
    Done,
}

/// The workflow allows a step to a neighbouring column only:
/// `Todo <-> InProgress <-> Done`. There is no jump between `Todo` and `Done`.
pub open spec fn can_move(from: Status, to: Status) -> bool {
    match from {
        Status::Todo => to == Status::InProgress,
        Status::InProgress => to == Status::Todo || to == Status::Done,
        Status::Done => to == Status::InProgress,
    }
}

impl Status {
    /// The column to the right, if there is one.
    pub fn forward(self) -> (r: Option<Status>)
        ensures
            r matches Some(s) ==> can_move(self, s),
            r is None <==> self == Status::Done,
            r == Some(Status::InProgress) <==> self == Status::Todo,
            r == Some(Status::Done) <==> self == Status::InProgress,
    {
        match self {
            Status::Todo => Some(Status::InProgress),
            Status::InProgress => Some(Status::Done),
            Status::Done => None,
        }
    }

    /// The column to the left, if there is one.
    pub fn backward(self) -> (r: Option<Status>)
        ensures
            r matches Some(s) ==> can_move(self, s),
            r is None <==> self == Status::Todo,
            r == Some(Status::Todo) <==> self == Status::InProgress,
            r == Some(Status::InProgress) <==> self == Status::Done,
    {
        match self {
            Status::Todo => None,
            Status::InProgress => Some(Status::Todo),
            Status::Done => Some(Status::InProgress),
        }
    }

    /// Whether the workflow allows a task to go from `self` to `to` in one step.
    pub fn can_move_to(self, to: Status) -> (r: bool)
        ensures
            r == can_move(self, to),
    {
        match self {
            Status::Todo => to == Status::InProgress,
            Status::InProgress => to == Status::Todo || to == Status::Done,
            Status::Done => to == Status::InProgress,
        }
    }
}

} // verus!
