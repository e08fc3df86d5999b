use task_manager::models::{
    next_status, previous_status, priority_rank, Task, TaskPriority, TaskStatus,
};
use task_manager::state::{App, AppMode, AppTab, InputMode};
use task_manager::text::{parse_hex_rgb, truncate_string};

#[test]
fn status_cycle_closes_in_three_steps() {
    for s in [TaskStatus::Todo, TaskStatus::InProgress, TaskStatus::Done] {
        assert_eq!(next_status(next_status(next_status(s))), s);
        assert_eq!(previous_status(next_status(s)), s);
    }
}

#[test]
fn new_task_carries_its_fields() {
    let t = Task::new("a title", "a description", TaskStatus::InProgress, TaskPriority::High);
    assert_eq!(t.title, "a title");
    assert_eq!(t.description, "a description");
    assert_eq!(t.status, TaskStatus::InProgress);
    assert_eq!(t.priority, TaskPriority::High);
    assert_eq!(t.due_date, None);
    assert!(t.tags.is_empty());
}

#[test]
fn new_tasks_get_distinct_hyphenated_identities() {
    let a = Task::new("a", "", TaskStatus::Todo, TaskPriority::Low);
    let b = Task::new("b", "", TaskStatus::Todo, TaskPriority::Low);
    assert_eq!(a.id.chars().count(), 36);
    assert_eq!(b.id.chars().count(), 36);
    assert_ne!(a.id, b.id);
}

#[test]
fn priorities_are_totally_ordered() {
    assert!(priority_rank(TaskPriority::Low) < priority_rank(TaskPriority::Medium));
    assert!(priority_rank(TaskPriority::Medium) < priority_rank(TaskPriority::High));
    assert!(priority_rank(TaskPriority::High) < priority_rank(TaskPriority::Critical));
}

#[test]
fn task_without_due_date_is_never_overdue_now() {
    let t = Task::new("t", "", TaskStatus::Todo, TaskPriority::Low);
    assert!(!t.is_overdue());
}

#[test]
fn overdue_needs_a_past_due_date_and_an_open_status() {
    let mut t = Task::new("t", "", TaskStatus::Todo, TaskPriority::Low);
    assert!(!t.is_overdue_at(100));
    t.due_date = Some(50);
    assert!(t.is_overdue_at(100));
    assert!(!t.is_overdue_at(50));
    t.status = TaskStatus::Done;
    assert!(!t.is_overdue_at(100));
}

#[test]
fn colors_parse_to_their_rgb_bytes() {
    let t = Task::new("t", "", TaskStatus::Todo, TaskPriority::Critical);
    assert_eq!(parse_hex_rgb(t.priority_color()), Some((0xFF, 0x63, 0x69)));
    assert_eq!(parse_hex_rgb(t.status_color()), Some((0x72, 0xB7, 0xF0)));
    assert_eq!(parse_hex_rgb("#FF9E3B"), Some((255, 158, 59)));
    assert_eq!(parse_hex_rgb("#70c666"), Some((112, 198, 102)));
}

#[test]
fn malformed_colors_do_not_parse() {
    assert_eq!(parse_hex_rgb("red"), None);
    assert_eq!(parse_hex_rgb("#fff"), None);
    assert_eq!(parse_hex_rgb("#GGGGGG"), None);
    assert_eq!(parse_hex_rgb("72B7F0#"), None);
    assert_eq!(parse_hex_rgb(""), None);
}

#[test]
fn truncate_keeps_short_strings() {
    assert_eq!(truncate_string("hello", 5), "hello");
    assert_eq!(truncate_string("", 3), "");
}

#[test]
fn truncate_cuts_long_strings_with_an_ellipsis() {
    assert_eq!(truncate_string("hello world", 5), "hell\u{2026}");
    assert_eq!(truncate_string("abc", 0), "\u{2026}");
    assert_eq!(truncate_string("abc", 2), "a\u{2026}");
}

#[test]
fn fresh_session_state() {
    let app = App::new();
    assert!(app.tasks.is_empty());
    assert_eq!(app.mode, AppMode::Kanban);
    assert_eq!(app.input_mode, InputMode::Normal);
    assert_eq!(app.current_tab, AppTab::Tasks);
    assert_eq!(app.selected_task_index, None);
    assert!(!app.filter.active);
    assert!(!app.show_help);
    assert!(!app.show_task_details);
}

#[test]
fn mode_cycle_and_toggles() {
    let mut app = App::new();
    assert_eq!(app.mode, AppMode::Kanban);
    app.toggle_mode();
    assert_eq!(app.mode, AppMode::List);
    app.toggle_mode();
    assert_eq!(app.mode, AppMode::Normal);
    app.toggle_mode();
    assert_eq!(app.mode, AppMode::Kanban);
    app.toggle_input_mode();
    assert_eq!(app.input_mode, InputMode::Editing);
    app.toggle_input_mode();
    assert_eq!(app.input_mode, InputMode::Normal);
    app.toggle_help();
    assert!(app.show_help);
}

#[test]
fn tab_cycle_forward_and_back() {
    let mut app = App::new();
    app.next_tab();
    assert_eq!(app.current_tab, AppTab::Calendar);
    app.next_tab();
    assert_eq!(app.current_tab, AppTab::Statistics);
    app.next_tab();
    assert_eq!(app.current_tab, AppTab::Tasks);
    app.previous_tab();
    assert_eq!(app.current_tab, AppTab::Statistics);
}

#[test]
fn sample_tasks_seed_the_documented_set() {
    let mut app = App::new();
    app.add_sample_tasks();
    assert_eq!(app.tasks.len(), 10);
    assert_eq!(app.tasks[0].title, "Implement task creation");
    assert_eq!(app.tasks[1].status, TaskStatus::InProgress);
    assert_eq!(app.tasks[1].priority, TaskPriority::Critical);
    assert_eq!(app.tasks[9].title, "Write documentation");
    assert_eq!(app.count_by_status(TaskStatus::Todo), 6);
    assert_eq!(app.count_by_status(TaskStatus::InProgress), 2);
    assert_eq!(app.count_by_status(TaskStatus::Done), 2);
    assert_eq!(app.count_by_priority(TaskPriority::Medium), 4);
    assert_eq!(app.count_by_priority(TaskPriority::Critical), 1);
}
