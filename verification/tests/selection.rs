use task_manager::models::{TaskPriority, TaskStatus};
use task_manager::state::{App, AppMode};

fn board_app() -> App {
    // store: [T(Todo,Low), T(Todo,Critical), T(Done,Medium)]
    let mut app = App::new();
    app.add_task(
        "first".to_string(),
        "a todo task".to_string(),
        TaskStatus::Todo,
        TaskPriority::Low,
    );
    app.add_task(
        "second".to_string(),
        "an urgent todo task".to_string(),
        TaskStatus::Todo,
        TaskPriority::Critical,
    );
    app.add_task(
        "third".to_string(),
        "a finished task".to_string(),
        TaskStatus::Done,
        TaskPriority::Medium,
    );
    app.mode = AppMode::Kanban;
    app
}

#[test]
fn board_next_visits_higher_priority_before_leaving_column() {
    let mut app = board_app();
    app.selected_task_index = Some(0);
    app.select_next_task();
    assert_eq!(app.selected_task_index, Some(1));
    app.select_next_task();
    assert_eq!(app.selected_task_index, Some(2));
}

#[test]
fn board_next_cycle_closes_after_len_steps() {
    let mut app = board_app();
    app.selected_task_index = Some(0);
    for _ in 0..3 {
        app.select_next_task();
    }
    assert_eq!(app.selected_task_index, Some(0));
}

#[test]
fn flat_next_cycle_closes_after_len_steps() {
    let mut app = board_app();
    app.mode = AppMode::List;
    app.selected_task_index = Some(1);
    for _ in 0..3 {
        app.select_next_task();
    }
    assert_eq!(app.selected_task_index, Some(1));
}

#[test]
fn board_next_stays_in_column_below_the_top() {
    // Two Todo tasks: from the lower-priority one the cursor must stay in
    // the Todo column.
    let mut app = board_app();
    app.selected_task_index = Some(0);
    app.select_next_task();
    let idx = app.selected_task_index.unwrap();
    let vis = app.filtered_tasks();
    assert_eq!(app.tasks[vis[idx]].status, TaskStatus::Todo);
}

#[test]
fn board_previous_inverts_next() {
    let mut app = board_app();
    app.selected_task_index = Some(1);
    app.select_previous_task();
    assert_eq!(app.selected_task_index, Some(0));
    app.selected_task_index = Some(2);
    app.select_previous_task();
    assert_eq!(app.selected_task_index, Some(1));
}

#[test]
fn flat_wraps_both_ways() {
    let mut app = board_app();
    app.mode = AppMode::List;
    app.selected_task_index = Some(2);
    app.select_next_task();
    assert_eq!(app.selected_task_index, Some(0));
    app.select_previous_task();
    assert_eq!(app.selected_task_index, Some(2));
}

#[test]
fn unset_cursor_lands_on_first_or_last() {
    let mut app = board_app();
    app.selected_task_index = None;
    app.select_next_task();
    assert_eq!(app.selected_task_index, Some(0));
    app.selected_task_index = None;
    app.select_previous_task();
    assert_eq!(app.selected_task_index, Some(2));
}

#[test]
fn stale_cursor_recovers() {
    let mut app = board_app();
    app.selected_task_index = Some(17);
    app.select_next_task();
    assert_eq!(app.selected_task_index, Some(0));
}

#[test]
fn single_visible_task_selects_itself() {
    let mut app = App::new();
    app.add_task(
        "only".to_string(),
        "the only task".to_string(),
        TaskStatus::Todo,
        TaskPriority::Low,
    );
    app.mode = AppMode::Kanban;
    app.selected_task_index = Some(0);
    app.select_next_task();
    assert_eq!(app.selected_task_index, Some(0));
    app.select_previous_task();
    assert_eq!(app.selected_task_index, Some(0));
}

#[test]
fn next_column_jumps_to_priority_highest() {
    // The target is the adjacent column only: from Todo, with InProgress
    // empty, nothing moves.
    let mut app = board_app();
    app.selected_task_index = Some(0);
    app.next_column();
    assert_eq!(app.selected_task_index, Some(0));
    // From Done the next column is Todo, whose priority-highest is index 1.
    app.selected_task_index = Some(2);
    app.next_column();
    assert_eq!(app.selected_task_index, Some(1));
}

#[test]
fn previous_column_jumps_to_priority_highest() {
    let mut app = board_app();
    // From Todo the previous column is Done, whose only member is index 2.
    app.selected_task_index = Some(0);
    app.previous_column();
    assert_eq!(app.selected_task_index, Some(2));
}

#[test]
fn column_moves_are_noops_outside_kanban() {
    let mut app = board_app();
    app.mode = AppMode::List;
    app.selected_task_index = Some(0);
    app.next_column();
    assert_eq!(app.selected_task_index, Some(0));
    app.previous_column();
    assert_eq!(app.selected_task_index, Some(0));
}

#[test]
fn ties_in_a_column_keep_visible_order() {
    // Two Medium Todo tasks: display order is visible order, so traversal
    // from the later one goes to the earlier one.
    let mut app = App::new();
    app.add_task(
        "early".to_string(),
        String::new(),
        TaskStatus::Todo,
        TaskPriority::Medium,
    );
    app.add_task(
        "late".to_string(),
        String::new(),
        TaskStatus::Todo,
        TaskPriority::Medium,
    );
    app.mode = AppMode::Kanban;
    app.selected_task_index = Some(1);
    app.select_next_task();
    assert_eq!(app.selected_task_index, Some(0));
}
