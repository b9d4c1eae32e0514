use tasker::board::Rect;
use tasker::controller::{App, AppMode, Effect, Key, PointerEvent, PointerKind};
use tasker::store::TaskStore;
use tasker::task::{Task, TaskStatus};

fn board_areas() -> Vec<Rect> {
    (0..4).map(|i| Rect { x: 10 * i, y: 0, width: 10, height: 30 }).collect()
}

fn task(app: &App, id: usize) -> &Task {
    app.store.get_task(id).unwrap()
}

fn no_effect() -> Effect {
    Effect { save: false, chime: false }
}

fn typed(app: &mut App, text: &str) {
    for c in text.chars() {
        app.handle_key(Key::Char(c));
    }
}

fn pointer(kind: PointerKind, x: u16, y: u16) -> PointerEvent {
    PointerEvent { kind, x, y }
}

/// Three tasks in the first column; the second has steps.
fn sample_app() -> (App, Vec<usize>) {
    let mut store = TaskStore::new();
    let a = store.add_task("a".to_string());
    let b = store.add_task("b".to_string());
    let c = store.add_task("c".to_string());
    store.set_steps(b, vec!["s1".to_string(), "s2".to_string()]);
    let mut app = App::new(store, None);
    app.set_column_areas(board_areas());
    (app, vec![a, b, c])
}

#[test]
fn starts_in_navigation() {
    let (app, _) = sample_app();
    assert_eq!(app.mode, AppMode::Navigate);
    assert_eq!(app.selected_column, 0);
    assert_eq!(app.selected_task, None);
    assert!(!app.should_quit);
    assert!(app.dragging_task.is_none());
}

#[test]
fn quit_key() {
    let (mut app, _) = sample_app();
    assert_eq!(app.handle_key(Key::Char('q')), no_effect());
    assert!(app.should_quit);
}

#[test]
fn columns_are_clamped() {
    let (mut app, _) = sample_app();
    app.handle_key(Key::Left);
    assert_eq!(app.selected_column, 0);
    for _ in 0..5 {
        app.handle_key(Key::Right);
    }
    assert_eq!(app.selected_column, 3);
    app.handle_key(Key::Left);
    assert_eq!(app.selected_column, 2);
}

#[test]
fn moving_column_clears_selection() {
    let (mut app, _) = sample_app();
    app.handle_key(Key::Down);
    assert_eq!(app.selected_task, Some(0));
    app.handle_key(Key::Right);
    assert_eq!(app.selected_task, None);
}

#[test]
fn selection_is_clamped_without_wrapping() {
    let (mut app, _) = sample_app();
    app.handle_key(Key::Up);
    assert_eq!(app.selected_task, Some(0));
    for _ in 0..5 {
        app.handle_key(Key::Down);
    }
    assert_eq!(app.selected_task, Some(2));
    app.handle_key(Key::Up);
    assert_eq!(app.selected_task, Some(1));
    app.handle_key(Key::Right);
    app.handle_key(Key::Down);
    assert_eq!(app.selected_task, None);
}

#[test]
fn done_key_advances_then_completes_with_chime() {
    let (mut app, ids) = sample_app();
    app.handle_key(Key::Down);
    app.handle_key(Key::Down);
    assert_eq!(app.get_selected_task_id(), Some(ids[1]));
    let e = app.handle_key(Key::Char('d'));
    assert_eq!(e, Effect { save: true, chime: false });
    assert_eq!(task(&app, ids[1]).current_step, 1);
    assert_eq!(app.selected_task, Some(1));
    let e = app.handle_key(Key::Char(' '));
    assert_eq!(e, Effect { save: true, chime: true });
    assert_eq!(task(&app, ids[1]).status, TaskStatus::Complete);
    assert_eq!(app.selected_task, None);
}

#[test]
fn lifecycle_keys_on_selection() {
    let (mut app, ids) = sample_app();
    app.handle_key(Key::Down);
    let e = app.handle_key(Key::Char('b'));
    assert_eq!(e, Effect { save: true, chime: false });
    assert_eq!(task(&app, ids[0]).status, TaskStatus::Blocked);
    assert_eq!(app.selected_task, None);
    app.handle_key(Key::Down);
    app.handle_key(Key::Char('i'));
    assert_eq!(task(&app, ids[1]).status, TaskStatus::InProgress);
    app.handle_key(Key::Right);
    app.handle_key(Key::Down);
    app.handle_key(Key::Char('n'));
    assert_eq!(task(&app, ids[1]).status, TaskStatus::NotStarted);
    assert_eq!(app.handle_key(Key::Char('n')), no_effect());
}

#[test]
fn undo_steps_back_once() {
    let (mut app, ids) = sample_app();
    app.handle_key(Key::Down);
    assert_eq!(app.handle_key(Key::Char('u')), no_effect());
    app.handle_key(Key::Down);
    app.handle_key(Key::Char('d'));
    assert_eq!(app.handle_key(Key::Char('u')), Effect { save: true, chime: false });
    assert_eq!(task(&app, ids[1]).current_step, 0);
}

#[test]
fn add_task_form_with_steps() {
    let (mut app, _) = sample_app();
    app.handle_key(Key::Char('a'));
    assert_eq!(app.mode, AppMode::AddTask);
    typed(&mut app, "Tidy");
    app.handle_key(Key::Backspace);
    typed(&mut app, "y desk");
    app.handle_key(Key::Enter);
    assert_eq!(app.form.active_field, 1);
    typed(&mut app, "clear");
    app.handle_key(Key::Enter);
    app.handle_key(Key::Enter);
    typed(&mut app, "wipe");
    app.handle_key(Key::Enter);
    assert_eq!(app.form.steps, vec!["clear".to_string(), "wipe".to_string()]);
    app.handle_key(Key::Tab);
    assert_eq!(app.form.active_field, 2);
    let e = app.handle_key(Key::Enter);
    assert_eq!(e, Effect { save: true, chime: false });
    assert_eq!(app.mode, AppMode::Navigate);
    let t = task(&app, 4);
    assert_eq!(t.description, "Tidy desk");
    assert_eq!(t.steps, vec!["clear".to_string(), "wipe".to_string()]);
    assert_eq!(t.current_step, 0);
    assert_eq!(t.status, TaskStatus::NotStarted);
    assert!(app.form.description.is_empty());
    assert!(app.form.steps.is_empty());
}

#[test]
fn add_task_form_needs_a_description() {
    let (mut app, _) = sample_app();
    app.handle_key(Key::Char('a'));
    app.handle_key(Key::Tab);
    app.handle_key(Key::Tab);
    assert_eq!(app.handle_key(Key::Enter), no_effect());
    assert_eq!(app.mode, AppMode::AddTask);
    assert_eq!(app.store.tasks().len(), 3);
    app.handle_key(Key::Tab);
    assert_eq!(app.form.active_field, 0);
}

#[test]
fn escape_discards_the_form() {
    let (mut app, _) = sample_app();
    app.handle_key(Key::Char('a'));
    typed(&mut app, "half");
    app.handle_key(Key::Esc);
    assert_eq!(app.mode, AppMode::Navigate);
    assert!(app.form.description.is_empty());
    assert_eq!(app.store.tasks().len(), 3);
}

#[test]
fn edit_current_step() {
    let (mut app, ids) = sample_app();
    app.handle_key(Key::Down);
    app.handle_key(Key::Char('e'));
    assert_eq!(app.mode, AppMode::Navigate);
    app.handle_key(Key::Down);
    app.handle_key(Key::Char('e'));
    assert_eq!(app.mode, AppMode::EditStep);
    assert_eq!(app.edit_buffer, "s1");
    app.handle_key(Key::Backspace);
    typed(&mut app, "one");
    let e = app.handle_key(Key::Enter);
    assert_eq!(e, Effect { save: true, chime: false });
    assert_eq!(task(&app, ids[1]).steps[0], "sone");
    assert_eq!(app.mode, AppMode::Navigate);
    assert!(app.edit_buffer.is_empty());
    assert_eq!(app.editing_task_id, None);
}

#[test]
fn empty_edit_buffer_is_not_written() {
    let (mut app, ids) = sample_app();
    app.handle_key(Key::Down);
    app.handle_key(Key::Char('E'));
    assert_eq!(app.mode, AppMode::EditTaskName);
    assert_eq!(app.edit_buffer, "a");
    app.handle_key(Key::Backspace);
    app.handle_key(Key::Backspace);
    assert_eq!(app.handle_key(Key::Enter), no_effect());
    assert_eq!(task(&app, ids[0]).description, "a");
    assert_eq!(app.mode, AppMode::Navigate);
}

#[test]
fn edit_task_name_and_cancel() {
    let (mut app, ids) = sample_app();
    app.handle_key(Key::Down);
    app.handle_key(Key::Char('E'));
    typed(&mut app, "bc");
    app.handle_key(Key::Esc);
    assert_eq!(task(&app, ids[0]).description, "a");
    app.handle_key(Key::Char('E'));
    typed(&mut app, "bc");
    assert_eq!(app.handle_key(Key::Enter), Effect { save: true, chime: false });
    assert_eq!(task(&app, ids[0]).description, "abc");
}

#[test]
fn delete_needs_confirmation() {
    let (mut app, ids) = sample_app();
    app.handle_key(Key::Down);
    app.handle_key(Key::Char('r'));
    assert_eq!(app.mode, AppMode::ConfirmDelete);
    assert_eq!(app.deleting_task_id, Some(ids[0]));
    assert_eq!(app.handle_key(Key::Char('x')), no_effect());
    assert_eq!(app.mode, AppMode::ConfirmDelete);
    app.handle_key(Key::Char('n'));
    assert_eq!(app.mode, AppMode::Navigate);
    assert_eq!(app.store.tasks().len(), 3);
    app.handle_key(Key::Char('r'));
    assert_eq!(app.handle_key(Key::Char('Y')), Effect { save: true, chime: false });
    assert_eq!(app.store.tasks().len(), 2);
    assert!(app.store.get_task(ids[0]).is_none());
    assert_eq!(app.selected_task, None);
    assert_eq!(app.deleting_task_id, None);
}

#[test]
fn pointer_down_on_a_card_starts_a_drag() {
    let (mut app, ids) = sample_app();
    // The column's top border is row 0; cards start on row 1: a (3), b (4), c (3).
    app.handle_mouse(pointer(PointerKind::Down, 3, 5));
    assert_eq!(app.selected_column, 0);
    assert_eq!(app.selected_task, Some(1));
    assert_eq!(app.dragging_task, Some((ids[1], 0)));
    assert_eq!(app.drag_target_column, Some(0));
}

#[test]
fn pointer_down_below_the_cards_starts_nothing() {
    let (mut app, _) = sample_app();
    app.handle_key(Key::Right);
    app.handle_mouse(pointer(PointerKind::Down, 3, 20));
    assert_eq!(app.selected_column, 0);
    assert_eq!(app.selected_task, None);
    assert!(app.dragging_task.is_none());
}

#[test]
fn drag_to_complete_column_overwrites_status() {
    let (mut app, ids) = sample_app();
    app.handle_mouse(pointer(PointerKind::Down, 3, 1));
    assert_eq!(app.dragging_task, Some((ids[0], 0)));
    app.handle_mouse(pointer(PointerKind::Drag, 15, 1));
    assert_eq!(app.drag_target_column, Some(1));
    app.handle_mouse(pointer(PointerKind::Drag, 35, 99));
    assert_eq!(app.drag_target_column, Some(3));
    app.handle_mouse(pointer(PointerKind::Drag, 80, 1));
    assert_eq!(app.drag_target_column, Some(3));
    let e = app.handle_mouse(pointer(PointerKind::Up, 80, 1));
    assert_eq!(e, Effect { save: true, chime: true });
    assert_eq!(task(&app, ids[0]).status, TaskStatus::Complete);
    assert_eq!(app.selected_column, 3);
    assert_eq!(app.selected_task, None);
    assert!(app.dragging_task.is_none());
    assert!(app.drag_target_column.is_none());
}

#[test]
fn drop_on_own_column_changes_nothing() {
    let (mut app, ids) = sample_app();
    app.handle_mouse(pointer(PointerKind::Down, 3, 1));
    app.handle_mouse(pointer(PointerKind::Drag, 5, 1));
    let e = app.handle_mouse(pointer(PointerKind::Up, 5, 1));
    assert_eq!(e, no_effect());
    assert_eq!(task(&app, ids[0]).status, TaskStatus::NotStarted);
    assert!(app.dragging_task.is_none());
}

#[test]
fn drag_from_complete_back_to_blocked() {
    let (mut app, ids) = sample_app();
    app.store.set_status(ids[2], TaskStatus::Complete);
    app.handle_mouse(pointer(PointerKind::Down, 33, 2));
    assert_eq!(app.dragging_task, Some((ids[2], 3)));
    app.handle_mouse(pointer(PointerKind::Drag, 25, 2));
    let e = app.handle_mouse(pointer(PointerKind::Up, 25, 2));
    assert_eq!(e, Effect { save: true, chime: false });
    assert_eq!(task(&app, ids[2]).status, TaskStatus::Blocked);
}

#[test]
fn pointer_is_ignored_outside_navigation() {
    let (mut app, _) = sample_app();
    app.handle_key(Key::Char('a'));
    app.handle_mouse(pointer(PointerKind::Down, 3, 1));
    assert!(app.dragging_task.is_none());
    assert_eq!(app.selected_task, None);
}

#[test]
fn release_without_drag_clears_nothing_else() {
    let (mut app, _) = sample_app();
    app.handle_key(Key::Down);
    assert_eq!(app.handle_mouse(pointer(PointerKind::Up, 3, 1)), no_effect());
    assert_eq!(app.selected_task, Some(0));
}

#[test]
fn pointer_on_top_border_hits_no_card() {
    let (mut app, _) = sample_app();
    app.handle_key(Key::Right);
    app.handle_mouse(pointer(PointerKind::Down, 3, 0));
    assert_eq!(app.selected_column, 0);
    assert_eq!(app.selected_task, None);
    assert!(app.dragging_task.is_none());
}

#[test]
fn release_outside_navigation_ends_the_drag() {
    let (mut app, ids) = sample_app();
    app.handle_mouse(pointer(PointerKind::Down, 3, 1));
    assert_eq!(app.dragging_task, Some((ids[0], 0)));
    app.handle_key(Key::Char('a'));
    assert_eq!(app.handle_mouse(pointer(PointerKind::Up, 35, 1)), no_effect());
    assert!(app.dragging_task.is_none());
    assert!(app.drag_target_column.is_none());
    app.handle_key(Key::Esc);
    app.handle_mouse(pointer(PointerKind::Drag, 35, 1));
    assert_eq!(app.handle_mouse(pointer(PointerKind::Up, 35, 1)), no_effect());
    assert_eq!(task(&app, ids[0]).status, TaskStatus::NotStarted);
}

#[test]
fn step_advance_in_complete_column_does_not_chime() {
    let (mut app, ids) = sample_app();
    app.store.set_status(ids[1], TaskStatus::Complete);
    for _ in 0..3 {
        app.handle_key(Key::Right);
    }
    app.handle_key(Key::Down);
    assert_eq!(app.get_selected_task_id(), Some(ids[1]));
    assert_eq!(app.handle_key(Key::Char('d')), Effect { save: true, chime: false });
    assert_eq!(task(&app, ids[1]).current_step, 1);
    assert_eq!(app.selected_task, None);
    app.handle_key(Key::Down);
    assert_eq!(app.handle_key(Key::Char('d')), Effect { save: true, chime: true });
}
