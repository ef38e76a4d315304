use kanban::board::Board;
use kanban::frame::KanbanApp;
use kanban::status::Status;
use kanban::task::{Action, Task};

fn board_abc() -> Board {
    let mut b = Board::new();
    assert_eq!(b.create("A"), Some(0));
    assert_eq!(b.create("B"), Some(1));
    assert_eq!(b.create("C"), Some(2));
    b
}

fn summary(tasks: &[Task]) -> Vec<(usize, String, Status)> {
    tasks.iter().map(|t| (t.id, t.text.clone(), t.status)).collect()
}

#[test]
fn create_adds_one_task_with_a_larger_id() {
    let mut b = Board::new();
    let mut last: Option<usize> = None;
    for (n, text) in ["x", "hello world", "z"].iter().enumerate() {
        let id = b.create(text).unwrap();
        if let Some(prev) = last {
            assert!(id > prev);
        }
        assert_eq!(b.len(), n + 1);
        last = Some(id);
    }
}

#[test]
fn ids_are_not_reused_after_delete() {
    let mut b = board_abc();
    assert!(b.delete_by_id(2));
    assert_eq!(b.create("D"), Some(3));
    assert_eq!(b.next_id(), 4);
}

#[test]
fn create_with_empty_text_is_ignored() {
    let mut b = board_abc();
    assert_eq!(b.create(""), None);
    assert_eq!(b.len(), 3);
    assert_eq!(b.next_id(), 3);
}

#[test]
fn whitespace_text_is_kept_as_typed() {
    let mut b = Board::new();
    assert_eq!(b.create("  "), Some(0));
    assert_eq!(b.tasks()[0].text, "  ");
}

#[test]
fn new_task_is_todo() {
    let mut b = Board::new();
    let id = b.create("write report").unwrap();
    let t = &b.tasks()[0];
    assert_eq!(t.id, id);
    assert_eq!(t.text, "write report");
    assert_eq!(t.status, Status::Todo);
}

#[test]
fn todo_cannot_jump_to_done() {
    let mut b = board_abc();
    assert!(!b.set_status(1, Status::Done));
    assert_eq!(b.tasks()[1].status, Status::Todo);
    assert!(b.set_status(1, Status::InProgress));
    assert!(b.set_status(1, Status::Done));
    assert_eq!(b.tasks()[1].status, Status::Done);
}

#[test]
fn done_cannot_jump_back_to_todo() {
    let mut b = board_abc();
    assert!(b.set_status(0, Status::InProgress));
    assert!(b.set_status(0, Status::Done));
    assert!(!b.set_status(0, Status::Todo));
    assert_eq!(b.tasks()[0].status, Status::Done);
    assert!(b.set_status(0, Status::InProgress));
    assert!(b.set_status(0, Status::Todo));
    assert_eq!(b.tasks()[0].status, Status::Todo);
}

#[test]
fn set_status_to_same_column_is_a_no_op() {
    let mut b = board_abc();
    assert!(!b.set_status(0, Status::Todo));
    assert_eq!(b.tasks()[0].status, Status::Todo);
}

#[test]
fn set_status_of_missing_id_is_a_no_op() {
    let mut b = board_abc();
    assert!(!b.set_status(7, Status::InProgress));
    assert_eq!(
        summary(b.tasks()),
        vec![
            (0, "A".to_string(), Status::Todo),
            (1, "B".to_string(), Status::Todo),
            (2, "C".to_string(), Status::Todo),
        ]
    );
}

#[test]
fn delete_removes_exactly_the_matching_task() {
    let mut b = board_abc();
    assert!(b.set_status(2, Status::InProgress));
    assert!(b.delete_by_id(1));
    assert_eq!(
        summary(b.tasks()),
        vec![(0, "A".to_string(), Status::Todo), (2, "C".to_string(), Status::InProgress)]
    );
}

#[test]
fn delete_of_missing_id_is_a_no_op() {
    let mut b = board_abc();
    assert!(!b.delete_by_id(9));
    assert_eq!(b.len(), 3);
    let mut empty = Board::new();
    assert!(!empty.delete_by_id(0));
    assert_eq!(empty.len(), 0);
}

#[test]
fn delete_then_change_status_in_one_pass() {
    let mut b = board_abc();
    b.reconcile(vec![Action::Delete(1), Action::ChangeStatus(1, Status::InProgress)]);
    assert_eq!(
        summary(b.tasks()),
        vec![(0, "A".to_string(), Status::Todo), (2, "C".to_string(), Status::Todo)]
    );
    assert_eq!(b.next_id(), 3);
}

#[test]
fn change_status_then_delete_in_one_pass() {
    let mut b = board_abc();
    b.reconcile(vec![Action::ChangeStatus(0, Status::InProgress), Action::Delete(0)]);
    assert_eq!(b.len(), 2);
    assert!(b.tasks().iter().all(|t| t.id != 0));
}

#[test]
fn reconcile_applies_actions_in_order() {
    let mut b = board_abc();
    // The second move is legal only after the first has been applied.
    b.reconcile(vec![
        Action::ChangeStatus(2, Status::InProgress),
        Action::ChangeStatus(2, Status::Done),
    ]);
    assert_eq!(b.tasks()[2].status, Status::Done);
    b.reconcile(vec![
        Action::ChangeStatus(0, Status::Done),
        Action::ChangeStatus(0, Status::InProgress),
    ]);
    assert_eq!(b.tasks()[0].status, Status::InProgress);
}

#[test]
fn reconcile_of_empty_buffer_changes_nothing() {
    let mut b = board_abc();
    b.reconcile(Vec::new());
    assert_eq!(b.len(), 3);
    assert_eq!(b.next_id(), 3);
}

fn scenario() -> Board {
    let mut b = board_abc();
    b.apply(Action::ChangeStatus(1, Status::InProgress));
    b.apply(Action::ChangeStatus(1, Status::Done));
    b.apply(Action::Delete(0));
    b
}

#[test]
fn round_trip_scenario() {
    let b = scenario();
    assert_eq!(
        summary(b.tasks()),
        vec![(1, "B".to_string(), Status::Done), (2, "C".to_string(), Status::Todo)]
    );
    assert_eq!(b.next_id(), 3);
}

#[test]
fn list_by_status_after_scenario() {
    let b = scenario();
    let todo = b.list_by_status(Status::Todo);
    assert_eq!(todo.len(), 1);
    assert_eq!(todo[0].id, 2);
    assert_eq!(todo[0].text, "C");
    assert!(b.list_by_status(Status::InProgress).is_empty());
    assert_eq!(summary(&b.list_by_status(Status::Done)), vec![(1, "B".to_string(), Status::Done)]);
}

#[test]
fn list_by_status_keeps_insertion_order() {
    let mut b = board_abc();
    assert!(b.set_status(1, Status::InProgress));
    let todo: Vec<usize> = b.list_by_status(Status::Todo).iter().map(|t| t.id).collect();
    assert_eq!(todo, vec![0, 2]);
}

#[test]
fn duplicate_keeps_every_field() {
    let t = Task { id: 5, text: "copy me".to_string(), status: Status::InProgress };
    assert_eq!(t.duplicate(), t);
}

#[test]
fn neighbouring_columns() {
    assert_eq!(Status::Todo.forward(), Some(Status::InProgress));
    assert_eq!(Status::InProgress.forward(), Some(Status::Done));
    assert_eq!(Status::Done.forward(), None);
    assert_eq!(Status::Todo.backward(), None);
    assert_eq!(Status::InProgress.backward(), Some(Status::Todo));
    assert_eq!(Status::Done.backward(), Some(Status::InProgress));
}

#[test]
fn legal_steps() {
    let all = [Status::Todo, Status::InProgress, Status::Done];
    let mut legal = Vec::new();
    for from in all {
        for to in all {
            if from.can_move_to(to) {
                legal.push((from, to));
            }
        }
    }
    assert_eq!(
        legal,
        vec![
            (Status::Todo, Status::InProgress),
            (Status::InProgress, Status::Todo),
            (Status::InProgress, Status::Done),
            (Status::Done, Status::InProgress),
        ]
    );
}

#[test]
fn default_app_is_empty() {
    let app = KanbanApp::default();
    assert_eq!(app.input, "");
    assert_eq!(app.board.len(), 0);
    assert_eq!(app.board.next_id(), 0);
}

#[test]
fn submit_adds_task_and_clears_input() {
    let mut app = KanbanApp::default();
    app.input = "plan sprint".to_string();
    assert_eq!(app.submit(), Some(0));
    assert_eq!(app.input, "");
    assert_eq!(app.board.tasks()[0].text, "plan sprint");
    assert_eq!(app.board.tasks()[0].status, Status::Todo);
}

#[test]
fn submit_with_empty_input_does_nothing() {
    let mut app = KanbanApp::default();
    assert_eq!(app.submit(), None);
    assert_eq!(app.board.len(), 0);
    assert_eq!(app.board.next_id(), 0);
}

#[test]
fn finish_frame_applies_buffer_and_keeps_input() {
    let mut app = KanbanApp::default();
    app.input = "a".to_string();
    assert_eq!(app.submit(), Some(0));
    app.input = "half typed".to_string();
    app.finish_frame(vec![Action::ChangeStatus(0, Status::InProgress)]);
    assert_eq!(app.board.tasks()[0].status, Status::InProgress);
    assert_eq!(app.input, "half typed");
    app.finish_frame(vec![Action::Delete(0)]);
    assert_eq!(app.board.len(), 0);
}
