use vstd::prelude::*;

use crate::board::{apply_actions, Board};
use crate::status::Status;
use crate::task::{Action, TaskModel};

verus! {

/// The state of the board application between frames: the text being typed
/// for the next task, and the board itself.
pub struct KanbanApp {
    /// The text field in which a new task is typed.
    pub input: String,
    /// The task store.
    pub board: Board,
}

impl Default for KanbanApp {
    fn default() -> (r: KanbanApp)
        ensures
            r.input@.len() == 0,
            r.board.wf(),
            r.board@.tasks.len() == 0,
            r.board@.next_id == 0,
    {
        KanbanApp { input: String::new(), board: Board::new() }
    }
}

impl KanbanApp {
    /// Turns the typed text into a new `Todo` task and clears the field.
    /// Empty text is ignored and the field stays as it is.
    pub fn submit(&mut self) -> (r: Option<usize>)
        requires
            old(self).board.wf(),
        ensures
            final(self).board.wf(),
            r is Some <==> old(self).input@.len() > 0 && old(self).board@.next_id < usize::MAX,
            r matches Some(id) ==> {
                &&& id == old(self).board@.next_id
                &&& final(self).board@.next_id == id + 1
                &&& final(self).board@.tasks == old(self).board@.tasks.push(
                    TaskModel { id, text: old(self).input@, status: Status::Todo },
                )
                &&& final(self).input@.len() == 0
            },
            r is None ==> final(self).board@ == old(self).board@ && final(self).input@ == old(
                self,
            ).input@,
    {
        let r = self.board.create(self.input.as_str());
        if r.is_some() {
            self.input = String::new();
        }
        r
    }

    /// Ends a drawing pass: applies the actions recorded while drawing, in
    /// order. The typed text is kept.
    pub fn finish_frame(&mut self, actions: Vec<Action>)
        requires
            old(self).board.wf(),
        ensures
            final(self).board.wf(),
            final(self).board@.tasks == apply_actions(old(self).board@.tasks, actions@),
            final(self).board@.next_id == old(self).board@.next_id,
            final(self).input@ == old(self).input@,
    {
        self.board.reconcile(actions);
    }
}

} // verus!
