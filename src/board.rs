use vstd::prelude::*;

use crate::status::{can_move, Status};
use crate::task::{Action, Task, TaskModel};

verus! {

/// Identifiers grow strictly along the store, so no two tasks share one.
pub open spec fn ids_increasing(s: Seq<TaskModel>) -> bool {
    forall|i: int, j: int| 0 <= i < j < s.len() ==> s[i].id < s[j].id
}

/// Every identifier in the store is below `n`.
pub open spec fn ids_below(s: Seq<TaskModel>, n: usize) -> bool {
    forall|i: int| 0 <= i < s.len() ==> s[i].id < n
}

/// Whether some task in the store has identifier `id`.
pub open spec fn has_id(s: Seq<TaskModel>, id: usize) -> bool {
    exists|i: int| 0 <= i < s.len() && s[i].id == id
}

/// The store after removing the task with identifier `id`.
pub open spec fn without_task(s: Seq<TaskModel>, id: usize) -> Seq<TaskModel> {
    s.filter(|t: TaskModel| t.id != id)
}

/// A task moved to `status` if the workflow allows the step, else unchanged.
pub open spec fn moved(t: TaskModel, status: Status) -> TaskModel {
    if can_move(t.status, status) {
        TaskModel { id: t.id, text: t.text, status }
    } else {
        t
    }
}

/// The store after asking the task with identifier `id` to move to `status`.
pub open spec fn with_status(s: Seq<TaskModel>, id: usize, status: Status) -> Seq<TaskModel> {
    s.map_values(|t: TaskModel| if t.id == id { moved(t, status) } else { t })
}

/// The tasks of one column, in store order.
pub open spec fn in_column(s: Seq<TaskModel>, status: Status) -> Seq<TaskModel> {
    s.filter(|t: TaskModel| t.status == status)
}

/// The store after one action.
pub open spec fn apply_action(s: Seq<TaskModel>, a: Action) -> Seq<TaskModel> {
    match a {
        Action::Delete(id) => without_task(s, id),
        Action::ChangeStatus(id, status) => with_status(s, id, status),
    }
}

/// The store after a buffer of actions, applied in the order recorded.
pub open spec fn apply_actions(s: Seq<TaskModel>, acts: Seq<Action>) -> Seq<TaskModel>
    decreases acts.len(),
{
    if acts.len() == 0 {
        s
    } else {
        apply_action(apply_actions(s, acts.drop_last()), acts.last())
    }
}

/// The tasks of a board together with the identifier the next task gets.
pub struct BoardModel {
    pub tasks: Seq<TaskModel>,
    pub next_id: usize,
}

/// The task store: tasks in creation order and the identifier counter.
pub struct Board {
    tasks: Vec<Task>,
    next_id: usize,
}

impl View for Board {
    type V = BoardModel;

    closed spec fn view(&self) -> BoardModel {
        BoardModel { tasks: self.tasks@.map_values(|t: Task| t@), next_id: self.next_id }
    }
}

impl Board {
    /// Identifiers unique and increasing, all below the counter, texts non-empty.
    pub open spec fn wf(&self) -> bool {
        &&& ids_increasing(self@.tasks)
        &&& ids_below(self@.tasks, self@.next_id)
        &&& forall|i: int| 0 <= i < self@.tasks.len() ==> self@.tasks[i].text.len() > 0
    }

    /// An empty board whose first task gets identifier 0.
    pub fn new() -> (r: Board)
        ensures
            r.wf(),
            r@.tasks == Seq::<TaskModel>::empty(),
            r@.next_id == 0,
    {
        let r = Board { tasks: Vec::new(), next_id: 0 };
        assert(r@.tasks =~= Seq::<TaskModel>::empty());
        r
    }

    /// Adds a task in the `Todo` column and returns its identifier. Empty text
    /// is dropped, as is any task once every identifier has been handed out.
    pub fn create(&mut self, text: &str) -> (r: Option<usize>)
        requires
            old(self).wf(),
        ensures
            final(self).wf(),
            r is Some <==> text@.len() > 0 && old(self)@.next_id < usize::MAX,
            r matches Some(id) ==> {
                &&& id == old(self)@.next_id
                &&& forall|i: int| 0 <= i < old(self)@.tasks.len() ==> old(self)@.tasks[i].id < id
                &&& final(self)@.next_id == id + 1
                &&& final(self)@.tasks == old(self)@.tasks.push(
                    TaskModel { id, text: text@, status: Status::Todo },
                )
            },
            r is None ==> final(self)@ == old(self)@,
    {
        if text.is_empty() || self.next_id == usize::MAX {
            return None;
        }
        let id = self.next_id;
        let task = Task { id, text: text.to_owned(), status: Status::Todo };
        self.tasks.push(task);
        self.next_id = id + 1;
        assert(self@.tasks =~= old(self)@.tasks.push(
            TaskModel { id, text: text@, status: Status::Todo },
        ));
        Some(id)
    }

    /// The position of the task with identifier `id`, if there is one.
    fn position(&self, id: usize) -> (r: Option<usize>)
        ensures
            r matches Some(k) ==> k < self@.tasks.len() && self@.tasks[k as int].id == id,
            r is None ==> !has_id(self@.tasks, id),
    {
        let mut k: usize = 0;
        while k < self.tasks.len()
            invariant
                k <= self.tasks@.len(),
                self@.tasks.len() == self.tasks@.len(),
                forall|i: int| 0 <= i < k ==> self@.tasks[i].id != id,
            decreases self.tasks@.len() - k,
        {
            if self.tasks[k].id == id {
                return Some(k);
            }
            k += 1;
        }
        None
    }

    /// Removes the task with identifier `id`, if any; returns whether one was.
    pub fn delete_by_id(&mut self, id: usize) -> (r: bool)
        requires
            old(self).wf(),
        ensures
            final(self).wf(),
            r == has_id(old(self)@.tasks, id),
            final(self)@.tasks == without_task(old(self)@.tasks, id),
            final(self)@.next_id == old(self)@.next_id,
    {
        match self.position(id) {
            Some(k) => {
                let _ = self.tasks.remove(k);
                proof {
                    law_delete_removes_one(old(self)@.tasks, id, k as int);
                    assert(self@.tasks =~= old(self)@.tasks.remove(k as int));
                }
                true
            },
            None => {
                proof {
                    lemma_without_absent(self@.tasks, id);
                }
                false
            },
        }
    }

    /// Moves the task with identifier `id` to `status` when the workflow
    /// allows that step from its current column; otherwise nothing changes.
    /// Returns whether the task moved.
    pub fn set_status(&mut self, id: usize, status: Status) -> (r: bool)
        requires
            old(self).wf(),
        ensures
            final(self).wf(),
            r == exists|i: int|
                0 <= i < old(self)@.tasks.len() && old(self)@.tasks[i].id == id && can_move(
                    old(self)@.tasks[i].status,
                    status,
                ),
            final(self)@.tasks == with_status(old(self)@.tasks, id, status),
            final(self)@.next_id == old(self)@.next_id,
    {
        let ghost s = old(self)@.tasks;
        match self.position(id) {
            Some(k) => {
                proof {
                    assert forall|i: int| 0 <= i < s.len() && i != k implies s[i].id != id by {
                        if i < k {
                            assert(s[i].id < s[k as int].id);
                        } else {
                            assert(s[k as int].id < s[i].id);
                        }
                    }
                }
                if self.tasks[k].status.can_move_to(status) {
                    self.tasks[k].status = status;
                    assert(self@.tasks =~= with_status(s, id, status));
                    true
                } else {
                    assert(self@.tasks =~= with_status(s, id, status));
                    false
                }
            },
            None => {
                assert(self@.tasks =~= with_status(s, id, status));
                false
            },
        }
    }

    /// Applies one buffered action.
    pub fn apply(&mut self, action: Action)
        requires
            old(self).wf(),
        ensures
            final(self).wf(),
            final(self)@.tasks == apply_action(old(self)@.tasks, action),
            final(self)@.next_id == old(self)@.next_id,
    {
        match action {
            Action::Delete(id) => {
                let _ = self.delete_by_id(id);
            },
            Action::ChangeStatus(id, status) => {
                let _ = self.set_status(id, status);
            },
        }
    }

    /// Applies the actions buffered during one drawing pass, in the order
    /// they were recorded. The buffer is consumed.
    pub fn reconcile(&mut self, actions: Vec<Action>)
        requires
            old(self).wf(),
        ensures
            final(self).wf(),
            final(self)@.tasks == apply_actions(old(self)@.tasks, actions@),
            final(self)@.next_id == old(self)@.next_id,
    {
        let mut i: usize = 0;
        while i < actions.len()
            invariant
                i <= actions@.len(),
                self.wf(),
                self@.tasks == apply_actions(old(self)@.tasks, actions@.take(i as int)),
                self@.next_id == old(self)@.next_id,
            decreases actions@.len() - i,
        {
            self.apply(actions[i]);
            assert(actions@.take(i + 1).drop_last() =~= actions@.take(i as int));
            i += 1;
        }
        assert(actions@.take(i as int) =~= actions@);
    }

    /// The tasks standing in column `status`, in store order.
    pub fn list_by_status(&self, status: Status) -> (r: Vec<Task>)
        ensures
            r@.map_values(|t: Task| t@) == in_column(self@.tasks, status),
    {
        let ghost s = self@.tasks;
        let mut r: Vec<Task> = Vec::new();
        let mut i: usize = 0;
        while i < self.tasks.len()
            invariant
                i <= self.tasks@.len(),
                s == self@.tasks,
                r@.map_values(|t: Task| t@) == in_column(s.take(i as int), status),
            decreases self.tasks@.len() - i,
        {
            proof {
                reveal(Seq::filter);
                assert(s.take(i + 1).drop_last() =~= s.take(i as int));
                assert(s.take(i + 1).last() == s[i as int]);
            }
            if self.tasks[i].status == status {
                let ghost before = r@;
                r.push(self.tasks[i].duplicate());
                assert(r@.map_values(|t: Task| t@) =~= before.map_values(|t: Task| t@).push(
                    s[i as int],
                ));
            }
            i += 1;
        }
        assert(s.take(i as int) =~= s);
        r
    }

    /// All tasks, in creation order.
    pub fn tasks(&self) -> (r: &Vec<Task>)
        ensures
            r@.map_values(|t: Task| t@) == self@.tasks,
    {
        &self.tasks
    }

    /// How many tasks the board holds.
    pub fn len(&self) -> (r: usize)
        ensures
            r == self@.tasks.len(),
    {
        self.tasks.len()
    }

    /// The identifier the next created task will get.
    pub fn next_id(&self) -> (r: usize)
        ensures
            r == self@.next_id,
    {
        self.next_id
    }
}

/// Removing an identifier that no task has leaves the store as it is.
proof fn lemma_without_absent(s: Seq<TaskModel>, id: usize)
    requires
        !has_id(s, id),
    ensures
        without_task(s, id) == s,
    decreases s.len(),
{
    reveal(Seq::filter);
    if s.len() > 0 {
        assert(!has_id(s.drop_last(), id)) by {
            if has_id(s.drop_last(), id) {
                let i = choose|i: int| 0 <= i < s.drop_last().len() && s.drop_last()[i].id == id;
                assert(s[i].id == id);
            }
        }
        lemma_without_absent(s.drop_last(), id);
        assert(s.last().id != id);
        assert(s =~= s.drop_last().push(s.last()));
    }
}

/// Deleting a task by identifier removes exactly the one record that has it
/// and keeps every other task, in the same relative order.
pub proof fn law_delete_removes_one(s: Seq<TaskModel>, id: usize, k: int)
    requires
        ids_increasing(s),
        0 <= k < s.len(),
        s[k].id == id,
    ensures
        without_task(s, id) == s.remove(k),
    decreases s.len(),
{
    reveal(Seq::filter);
    let d = s.drop_last();
    assert(ids_increasing(d));
    if k == s.len() - 1 {
        assert(!has_id(d, id)) by {
            if has_id(d, id) {
                let i = choose|i: int| 0 <= i < d.len() && d[i].id == id;
                assert(s[i].id < s[k].id);
            }
        }
        lemma_without_absent(d, id);
        assert(s.remove(k) =~= d);
    } else {
        law_delete_removes_one(d, id, k);
        assert(s.last().id != id) by {
            assert(s[k].id < s[s.len() - 1].id);
        }
        assert(s.remove(k) =~= d.remove(k).push(s.last()));
        assert(s =~= d.push(s.last()));
    }
}

/// Asking for a move of an identifier that no task has changes nothing.
proof fn lemma_with_status_absent(s: Seq<TaskModel>, id: usize, status: Status)
    requires
        !has_id(s, id),
    ensures
        with_status(s, id, status) == s,
{
    assert(with_status(s, id, status) =~= s);
}

/// A `Todo` task cannot jump straight to `Done`: that request leaves the board
/// as it is. Going through `InProgress` first does reach `Done`.
pub proof fn law_done_only_through_in_progress(b: Board, id: usize, k: int)
    requires
        b.wf(),
        0 <= k < b@.tasks.len(),
        b@.tasks[k].id == id,
        b@.tasks[k].status == Status::Todo,
    ensures
        with_status(b@.tasks, id, Status::Done) == b@.tasks,
        with_status(with_status(b@.tasks, id, Status::InProgress), id, Status::Done)[k].status
            == Status::Done,
{
    let s = b@.tasks;
    assert(with_status(s, id, Status::Done) =~= s);
}

/// Buffering a deletion and then a move of the same task, and reconciling,
/// leaves the task deleted: the move finds nothing, and no task reappears.
pub proof fn law_delete_then_move(b: Board, id: usize, status: Status)
    requires
        b.wf(),
    ensures
        apply_actions(b@.tasks, seq![Action::Delete(id), Action::ChangeStatus(id, status)])
            == without_task(b@.tasks, id),
        !has_id(
            apply_actions(b@.tasks, seq![Action::Delete(id), Action::ChangeStatus(id, status)]),
            id,
        ),
{
    let s = b@.tasks;
    let acts = seq![Action::Delete(id), Action::ChangeStatus(id, status)];
    assert(acts.drop_last() =~= seq![Action::Delete(id)]);
    assert(acts.drop_last().drop_last() =~= Seq::<Action>::empty());
    let d = without_task(s, id);
    assert(!has_id(d, id)) by {
        broadcast use Seq::lemma_filter_pred;
        if has_id(d, id) {
            let i = choose|i: int| 0 <= i < d.len() && d[i].id == id;
            assert(d[i].id != id);
        }
    }
    lemma_with_status_absent(d, id, status);
    assert(apply_actions(s, acts.drop_last().drop_last()) == s);
    assert(apply_actions(s, acts.drop_last()) == d);
    assert(apply_actions(s, acts) == with_status(d, id, status));
}

} // verus!
