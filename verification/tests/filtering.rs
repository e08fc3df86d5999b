use task_manager::filter::FilterCriteria;
use task_manager::models::{TaskPriority, TaskStatus};
use task_manager::state::{App, AppMode};

fn mixed_app() -> App {
    let mut app = App::new();
    app.add_task(
        "Design kanban view".to_string(),
        "Create a board UI".to_string(),
        TaskStatus::Todo,
        TaskPriority::High,
    );
    app.add_task(
        "Write documentation".to_string(),
        "Document the shortcuts".to_string(),
        TaskStatus::Done,
        TaskPriority::Low,
    );
    app.add_task(
        "Fix the parser".to_string(),
        "It drops the last field".to_string(),
        TaskStatus::Todo,
        TaskPriority::Critical,
    );
    app
}

#[test]
fn inactive_filter_shows_store_order_whatever_is_set() {
    let mut app = mixed_app();
    app.filter = FilterCriteria {
        active: false,
        status_filter: Some(TaskStatus::Done),
        priority_filter: Some(TaskPriority::Critical),
        search_query: "kanban".to_string(),
    };
    assert_eq!(app.filtered_tasks(), vec![0, 1, 2]);
}

#[test]
fn status_filter_keeps_only_that_status() {
    let mut app = mixed_app();
    app.filter.active = true;
    app.filter.status_filter = Some(TaskStatus::Todo);
    assert_eq!(app.filtered_tasks(), vec![0, 2]);
}

#[test]
fn priority_filter_keeps_only_that_priority() {
    let mut app = mixed_app();
    app.filter.active = true;
    app.filter.priority_filter = Some(TaskPriority::Low);
    assert_eq!(app.filtered_tasks(), vec![1]);
}

#[test]
fn search_is_case_insensitive_on_title() {
    let mut app = mixed_app();
    app.filter.active = true;
    app.filter.search_query = "KANBAN".to_string();
    assert_eq!(app.filtered_tasks(), vec![0]);
}

#[test]
fn search_is_case_insensitive_on_description() {
    let mut app = mixed_app();
    app.filter.active = true;
    app.filter.search_query = "Drops The Last".to_string();
    assert_eq!(app.filtered_tasks(), vec![2]);
}

#[test]
fn search_with_no_match_hides_everything() {
    let mut app = mixed_app();
    app.filter.active = true;
    app.filter.search_query = "zeppelin".to_string();
    assert_eq!(app.filtered_tasks(), Vec::<usize>::new());
}

#[test]
fn empty_query_matches_everything() {
    let mut app = mixed_app();
    app.filter.active = true;
    assert_eq!(app.filtered_tasks(), vec![0, 1, 2]);
}

#[test]
fn filters_combine_conjunctively() {
    let mut app = mixed_app();
    app.filter.active = true;
    app.filter.status_filter = Some(TaskStatus::Todo);
    app.filter.search_query = "design".to_string();
    assert_eq!(app.filtered_tasks(), vec![0]);
}

#[test]
fn empty_visible_set_clears_cursor_and_moves_are_noops() {
    // No InProgress task is stored, so that filter empties the view.
    let mut app = mixed_app();
    app.mode = AppMode::Kanban;
    app.selected_task_index = Some(1);
    app.filter.active = true;
    app.filter.status_filter = Some(TaskStatus::InProgress);
    assert_eq!(app.filtered_tasks(), Vec::<usize>::new());
    app.select_next_task();
    assert_eq!(app.selected_task_index, None);
    app.select_previous_task();
    assert_eq!(app.selected_task_index, None);
}

#[test]
fn advance_status_follows_the_cycle() {
    let mut app = mixed_app();
    app.selected_task_index = Some(0);
    assert!(app.move_task_status());
    assert_eq!(app.tasks[0].status, TaskStatus::InProgress);
    assert!(app.move_task_status());
    assert_eq!(app.tasks[0].status, TaskStatus::Done);
}

#[test]
fn advance_status_three_times_returns_to_start() {
    let mut app = mixed_app();
    app.selected_task_index = Some(1);
    let before = app.tasks[1].status;
    for _ in 0..3 {
        assert!(app.move_task_status());
    }
    assert_eq!(app.tasks[1].status, before);
}

#[test]
fn advance_status_resolves_through_identity_under_a_filter() {
    // With only Done tasks visible, the first visible entry is store
    // index 1; advancing must change that task, not store index 0.
    let mut app = mixed_app();
    app.filter.active = true;
    app.filter.status_filter = Some(TaskStatus::Done);
    app.selected_task_index = Some(0);
    assert!(app.move_task_status());
    assert_eq!(app.tasks[0].status, TaskStatus::Todo);
    assert_eq!(app.tasks[1].status, TaskStatus::Todo);
    assert_eq!(app.tasks[2].status, TaskStatus::Todo);
}

#[test]
fn advance_status_without_valid_cursor_changes_nothing() {
    let mut app = mixed_app();
    app.selected_task_index = None;
    assert!(!app.move_task_status());
    app.selected_task_index = Some(9);
    assert!(!app.move_task_status());
    assert_eq!(app.tasks[0].status, TaskStatus::Todo);
    assert_eq!(app.tasks[1].status, TaskStatus::Done);
    assert_eq!(app.tasks[2].status, TaskStatus::Todo);
}
