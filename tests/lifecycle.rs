use tasker::store::{Advance, TaskStore};
use tasker::task::{Task, TaskStatus};

fn find(store: &TaskStore, id: usize) -> &Task {
    store.tasks().iter().find(|t| t.id == id).unwrap()
}

fn steps(items: &[&str]) -> Vec<String> {
    items.iter().map(|s| s.to_string()).collect()
}

#[test]
fn new_store_is_empty_and_counts_from_one() {
    let store = TaskStore::new();
    assert!(store.tasks().is_empty());
    assert_eq!(store.next_id(), 1);
}

#[test]
fn add_task_assigns_increasing_ids() {
    let mut store = TaskStore::new();
    let a = store.add_task("first".to_string());
    let b = store.add_task("second".to_string());
    assert_eq!(a, 1);
    assert_eq!(b, 2);
    assert_eq!(store.next_id(), 3);
    let t = find(&store, b);
    assert_eq!(t.description, "second");
    assert!(t.steps.is_empty());
    assert_eq!(t.current_step, 0);
    assert_eq!(t.status, TaskStatus::NotStarted);
    assert_eq!(t.completed, None);
}

#[test]
fn scenario_single_task_without_steps() {
    let mut store = TaskStore::new();
    let id = store.add_task("Write report".to_string());
    let next = store.get_next_action().unwrap();
    assert_eq!(next.id, id);
    assert_eq!(next.description, "Write report");
    assert_eq!(next.status, TaskStatus::InProgress);
    assert_eq!(find(&store, id).status, TaskStatus::InProgress);
    assert_eq!(store.complete_task(id), Advance::TaskCompleted);
    assert_eq!(find(&store, id).status, TaskStatus::Complete);
}

#[test]
fn scenario_three_steps_advance() {
    let mut store = TaskStore::new();
    let id = store.add_task("Ship feature".to_string());
    assert!(store.set_steps(id, steps(&["draft", "review", "send"])));
    let next = store.get_next_action().unwrap();
    assert_eq!(next.id, id);
    assert_eq!(next.status, TaskStatus::InProgress);
    assert_eq!(store.complete_task(id), Advance::StepAdvanced);
    assert_eq!(store.complete_task(id), Advance::StepAdvanced);
    let t = find(&store, id);
    assert_eq!(t.current_step, 2);
    assert_eq!(t.status, TaskStatus::InProgress);
    assert_eq!(store.complete_task(id), Advance::TaskCompleted);
    let t = find(&store, id);
    assert_eq!(t.status, TaskStatus::Complete);
    assert_eq!(t.current_step, 2);
}

#[test]
fn scenario_block_then_unblock_keeps_step() {
    let mut store = TaskStore::new();
    let id = store.add_task("Plan trip".to_string());
    store.set_steps(id, steps(&["a", "b", "c"]));
    store.complete_task(id);
    assert_eq!(find(&store, id).current_step, 1);
    assert!(store.block_task(id));
    assert_eq!(find(&store, id).status, TaskStatus::Blocked);
    assert_eq!(find(&store, id).current_step, 1);
    assert!(store.unblock_task(id));
    assert_eq!(find(&store, id).status, TaskStatus::InProgress);
    assert_eq!(find(&store, id).current_step, 1);
}

#[test]
fn scenario_remove_missing_id() {
    let mut store = TaskStore::new();
    store.add_task("one".to_string());
    store.add_task("two".to_string());
    assert!(!store.remove_task(999));
    assert_eq!(store.tasks().len(), 2);
}

#[test]
fn remove_existing_id_keeps_order() {
    let mut store = TaskStore::new();
    let a = store.add_task("a".to_string());
    let b = store.add_task("b".to_string());
    let c = store.add_task("c".to_string());
    assert!(store.remove_task(b));
    let ids: Vec<usize> = store.tasks().iter().map(|t| t.id).collect();
    assert_eq!(ids, vec![a, c]);
    let d = store.add_task("d".to_string());
    assert_eq!(d, 4);
}

#[test]
fn unblock_without_steps_goes_back_to_not_started() {
    let mut store = TaskStore::new();
    let id = store.add_task("call".to_string());
    assert!(store.block_task(id));
    assert!(store.unblock_task(id));
    assert_eq!(find(&store, id).status, TaskStatus::NotStarted);
}

#[test]
fn unblock_with_steps_at_zero_goes_in_progress() {
    let mut store = TaskStore::new();
    let id = store.add_task("call".to_string());
    store.set_steps(id, steps(&["dial"]));
    store.block_task(id);
    assert!(store.unblock_task(id));
    assert_eq!(find(&store, id).status, TaskStatus::InProgress);
    assert_eq!(find(&store, id).current_step, 0);
}

#[test]
fn rejected_transitions() {
    let mut store = TaskStore::new();
    let id = store.add_task("x".to_string());
    assert!(!store.unblock_task(id));
    store.complete_task(id);
    assert!(!store.block_task(id));
    assert!(!store.reset_task(id));
    assert_eq!(find(&store, id).status, TaskStatus::Complete);
    assert_eq!(store.complete_task(42), Advance::NotFound);
    assert!(!store.block_task(42));
    assert!(!store.unblock_task(42));
    assert!(!store.reset_task(42));
    assert!(!store.set_status(42, TaskStatus::Blocked));
}

#[test]
fn reset_keeps_step_pointer() {
    let mut store = TaskStore::new();
    let id = store.add_task("x".to_string());
    store.set_steps(id, steps(&["a", "b"]));
    store.complete_task(id);
    store.set_status(id, TaskStatus::InProgress);
    assert!(store.reset_task(id));
    let t = find(&store, id);
    assert_eq!(t.status, TaskStatus::NotStarted);
    assert_eq!(t.current_step, 1);
}

#[test]
fn next_action_prefers_tasks_with_steps() {
    let mut store = TaskStore::new();
    let plain = store.add_task("plain".to_string());
    let stepped = store.add_task("stepped".to_string());
    store.set_steps(stepped, steps(&["go"]));
    let next = store.get_next_action().unwrap();
    assert_eq!(next.id, stepped);
    assert_eq!(find(&store, plain).status, TaskStatus::NotStarted);
}

#[test]
fn next_action_takes_earliest_and_skips_blocked_and_complete() {
    let mut store = TaskStore::new();
    let a = store.add_task("a".to_string());
    let b = store.add_task("b".to_string());
    let c = store.add_task("c".to_string());
    store.block_task(a);
    store.set_status(b, TaskStatus::Complete);
    let next = store.get_next_action().unwrap();
    assert_eq!(next.id, c);
    store.set_status(c, TaskStatus::Blocked);
    assert!(store.get_next_action().is_none());
}

#[test]
fn next_action_keeps_in_progress_status() {
    let mut store = TaskStore::new();
    let a = store.add_task("a".to_string());
    store.set_status(a, TaskStatus::InProgress);
    let next = store.get_next_action().unwrap();
    assert_eq!(next.status, TaskStatus::InProgress);
}

#[test]
fn next_action_on_empty_store() {
    let mut store = TaskStore::new();
    assert!(store.get_next_action().is_none());
}

#[test]
fn step_back_and_edit_steps() {
    let mut store = TaskStore::new();
    let id = store.add_task("x".to_string());
    assert!(!store.step_back(id));
    store.set_steps(id, steps(&["a", "b"]));
    store.complete_task(id);
    assert!(store.set_step_text(id, "B".to_string()));
    assert_eq!(find(&store, id).steps, steps(&["a", "B"]));
    assert!(store.step_back(id));
    assert_eq!(find(&store, id).current_step, 0);
    assert!(!store.step_back(id));
    assert!(store.set_description(id, "renamed".to_string()));
    assert_eq!(find(&store, id).description, "renamed");
    let other = store.add_task("y".to_string());
    assert!(!store.set_step_text(other, "z".to_string()));
}

#[test]
fn get_task_mut_gives_the_task() {
    let mut store = TaskStore::new();
    let id = store.add_task("x".to_string());
    store.get_task_mut(id).unwrap().description = "changed".to_string();
    assert_eq!(find(&store, id).description, "changed");
    assert!(store.get_task_mut(id + 1).is_none());
    assert!(store.get_task(id + 1).is_none());
}

#[test]
fn column_lists_tasks_of_one_status_in_order() {
    let mut store = TaskStore::new();
    let a = store.add_task("a".to_string());
    let b = store.add_task("b".to_string());
    let c = store.add_task("c".to_string());
    store.block_task(b);
    let ids: Vec<usize> = store.column(TaskStatus::NotStarted).iter().map(|t| t.id).collect();
    assert_eq!(ids, vec![a, c]);
    let ids: Vec<usize> = store.column(TaskStatus::Blocked).iter().map(|t| t.id).collect();
    assert_eq!(ids, vec![b]);
    assert!(store.column(TaskStatus::Complete).is_empty());
}

#[test]
fn legacy_flags_migrate_to_status() {
    let mut store = TaskStore::new();
    let a = store.add_task("a".to_string());
    let b = store.add_task("b".to_string());
    let c = store.add_task("c".to_string());
    store.get_task_mut(a).unwrap().completed = Some(true);
    store.get_task_mut(b).unwrap().completed = Some(false);
    store.set_status(b, TaskStatus::Blocked);
    store.set_status(c, TaskStatus::InProgress);
    store.migrate_legacy();
    assert_eq!(find(&store, a).status, TaskStatus::Complete);
    assert_eq!(find(&store, b).status, TaskStatus::NotStarted);
    assert_eq!(find(&store, c).status, TaskStatus::InProgress);
    assert!(store.tasks().iter().all(|t| t.completed.is_none()));
}

#[test]
fn from_parts_checks_the_invariant() {
    let mut store = TaskStore::new();
    store.add_task("a".to_string());
    store.add_task("b".to_string());
    let tasks: Vec<Task> = store.tasks().clone();
    let rebuilt = TaskStore::from_parts(tasks.clone(), 3).unwrap();
    assert_eq!(rebuilt.tasks().len(), 2);
    assert_eq!(rebuilt.next_id(), 3);
    assert!(TaskStore::from_parts(tasks.clone(), 2).is_none());
    let mut dup = tasks.clone();
    dup[1].id = dup[0].id;
    assert!(TaskStore::from_parts(dup, 3).is_none());
    let mut bad = tasks.clone();
    bad[0].current_step = 1;
    assert!(TaskStore::from_parts(bad, 3).is_none());
    let mut past_end = tasks;
    past_end[0].steps = vec!["s".to_string()];
    past_end[0].current_step = 2;
    assert!(TaskStore::from_parts(past_end, 3).is_none());
}

#[test]
fn added_task_gets_current_time() {
    let mut store = TaskStore::new();
    let id = store.add_task("x".to_string());
    let t = find(&store, id);
    assert!(t.created_at.secs > 1_600_000_000);
    assert!(t.created_at.nanos < 1_000_000_000);
}

#[test]
fn progress_stays_within_steps_after_every_operation() {
    let mut store = TaskStore::new();
    let a = store.add_task("a".to_string());
    let b = store.add_task("b".to_string());
    store.set_steps(a, steps(&["x", "y"]));
    let check = |store: &TaskStore| {
        for t in store.tasks() {
            assert!(t.current_step <= t.steps.len());
            if t.steps.is_empty() {
                assert_eq!(t.current_step, 0);
            }
        }
    };
    for _ in 0..4 {
        store.complete_task(a);
        check(&store);
        store.step_back(a);
        check(&store);
        store.complete_task(a);
        check(&store);
    }
    store.complete_task(b);
    store.block_task(a);
    store.unblock_task(a);
    store.reset_task(a);
    check(&store);
    store.set_steps(a, Vec::new());
    check(&store);
    assert_eq!(store.get_task(a).unwrap().current_step, 0);
}
